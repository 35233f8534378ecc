//! Icons: a file path, or bundled SVG icon data that is turned into an SVG
//! document, registered under the hash of its path data, and served from a
//! virtual `gpux-icon/<hash>.svg` path.

use vstd::prelude::*;
use std::collections::hash_map::DefaultHasher;
use std::hash::{Hash, Hasher};
use vstd::std_specs::hash::DefaultHasherAdditionalSpecFns;
use crate::system::assets::{AssetRegistry, icon_path, icon_virtual_path};
use crate::text::{append_classes, joined_classes, contains_seq, occurs_at};

verus! {

/// The fields of a bundled icon that its SVG document is built from.
pub struct IconData {
    pub data: String,
    pub width: Option<String>,
    pub height: Option<String>,
    pub view_box: Option<String>,
    pub fill: Option<String>,
    pub stroke: Option<String>,
    pub stroke_width: Option<String>,
    pub stroke_linecap: Option<String>,
    pub stroke_linejoin: Option<String>,
}

/// Where an icon comes from.
pub enum IconSource {
    Path(String),
    Icondata(IconData),
}

impl From<String> for IconSource {
    fn from(path: String) -> (r: Self) {
        IconSource::Path(path)
    }
}

impl vstd::std_specs::convert::FromSpecImpl<String> for IconSource {
    open spec fn obeys_from_spec() -> bool {
        true
    }

    open spec fn from_spec(v: String) -> IconSource {
        IconSource::Path(v)
    }
}

impl From<IconData> for IconSource {
    fn from(icon: IconData) -> (r: Self) {
        IconSource::Icondata(icon)
    }
}

impl vstd::std_specs::convert::FromSpecImpl<IconData> for IconSource {
    open spec fn obeys_from_spec() -> bool {
        true
    }

    open spec fn from_spec(v: IconData) -> IconSource {
        IconSource::Icondata(v)
    }
}

pub open spec fn opt_text(o: Option<String>) -> Option<Seq<char>> {
    match o {
        Some(s) => Some(s@),
        None => None,
    }
}

/// `name="value"`.
pub open spec fn attr(name: Seq<char>, value: Seq<char>) -> Seq<char> {
    name + "=\""@ + value + "\""@
}

pub open spec fn opt_attr(name: Seq<char>, value: Option<Seq<char>>) -> Seq<Seq<char>> {
    match value {
        Some(v) => seq![attr(name, v)],
        None => Seq::empty(),
    }
}

/// The attributes of an icon's `<svg>` element, in order: the namespace,
/// size and view box (24 by 24 by default), the fill (`currentColor` for
/// icons with neither fill nor stroke, `none` for stroke-only icons), then
/// the stroke attributes that are set.
pub open spec fn svg_attrs(icon: IconData) -> Seq<Seq<char>> {
    let width = match opt_text(icon.width) { Some(w) => w, None => "24"@ };
    let height = match opt_text(icon.height) { Some(h) => h, None => "24"@ };
    let view_box = match opt_text(icon.view_box) { Some(v) => v, None => "0 0 24 24"@ };
    let fill = match opt_text(icon.fill) {
        Some(f) => attr("fill"@, f),
        None => if icon.stroke is None { attr("fill"@, "currentColor"@) } else { attr("fill"@, "none"@) },
    };
    seq![
        attr("xmlns"@, "http://www.w3.org/2000/svg"@),
        attr("width"@, width),
        attr("height"@, height),
        attr("viewBox"@, view_box),
        fill,
    ] + opt_attr("stroke"@, opt_text(icon.stroke)) + opt_attr("stroke-width"@, opt_text(icon.stroke_width))
        + opt_attr("stroke-linecap"@, opt_text(icon.stroke_linecap)) + opt_attr(
        "stroke-linejoin"@,
        opt_text(icon.stroke_linejoin),
    )
}

/// The parts separated by single spaces.
pub open spec fn join_spaced(parts: Seq<Seq<char>>) -> Seq<char>
    decreases parts.len(),
{
    if parts.len() == 0 {
        Seq::empty()
    } else if parts.len() == 1 {
        parts[0]
    } else {
        join_spaced(parts.drop_last()) + " "@ + parts.last()
    }
}

/// The SVG document of an icon: `<svg ATTRS>DATA</svg>`.
pub open spec fn svg_document(icon: IconData) -> Seq<char> {
    "<svg "@ + join_spaced(svg_attrs(icon)) + ">"@ + icon.data@ + "</svg>"@
}

fn attr_string(name: &str, value: &str) -> (r: String)
    ensures
        r@ == attr(name@, value@),
{
    let mut s = String::from_str(name);
    s.append("=\"");
    s.append(value);
    s.append("\"");
    s
}

pub open spec fn string_views(v: Seq<String>) -> Seq<Seq<char>> {
    v.map_values(|a: String| a@)
}

fn push_opt_attr(attrs: &mut Vec<String>, name: &str, value: &Option<String>)
    ensures
        string_views(final(attrs)@) == string_views(old(attrs)@) + opt_attr(name@, opt_text(*value)),
{
    if let Some(v) = value {
        attrs.push(attr_string(name, v.as_str()));
        assert(string_views(attrs@) =~= string_views(old(attrs)@) + opt_attr(name@, opt_text(*value)));
    } else {
        assert(string_views(attrs@) =~= string_views(old(attrs)@) + opt_attr(name@, opt_text(*value)));
    }
}

fn or_default<'a>(o: &'a Option<String>, d: &'a str) -> (r: &'a str)
    ensures
        r@ == match opt_text(*o) { Some(v) => v, None => d@ },
{
    match o {
        Some(v) => v.as_str(),
        None => d,
    }
}

fn svg_attr_strings(icon: &IconData) -> (r: Vec<String>)
    ensures
        string_views(r@) == svg_attrs(*icon),
{
    let mut attrs: Vec<String> = Vec::new();
    attrs.push(attr_string("xmlns", "http://www.w3.org/2000/svg"));
    attrs.push(attr_string("width", or_default(&icon.width, "24")));
    attrs.push(attr_string("height", or_default(&icon.height, "24")));
    attrs.push(attr_string("viewBox", or_default(&icon.view_box, "0 0 24 24")));
    let fill = match &icon.fill {
        Some(f) => attr_string("fill", f.as_str()),
        None => if icon.stroke.is_none() {
            attr_string("fill", "currentColor")
        } else {
            attr_string("fill", "none")
        },
    };
    attrs.push(fill);
    let ghost head = string_views(attrs@);
    push_opt_attr(&mut attrs, "stroke", &icon.stroke);
    push_opt_attr(&mut attrs, "stroke-width", &icon.stroke_width);
    push_opt_attr(&mut attrs, "stroke-linecap", &icon.stroke_linecap);
    push_opt_attr(&mut attrs, "stroke-linejoin", &icon.stroke_linejoin);
    assert(string_views(attrs@) =~= svg_attrs(*icon));
    attrs
}

/// The parts joined by single spaces.
pub fn join_with_spaces(parts: &Vec<String>) -> (r: String)
    ensures
        r@ == join_spaced(string_views(parts@)),
{
    let ghost views = string_views(parts@);
    let mut joined = String::new();
    let mut i: usize = 0;
    while i < parts.len()
        invariant
            i <= parts@.len(),
            views == string_views(parts@),
            joined@ == join_spaced(views.take(i as int)),
        decreases parts@.len() - i,
    {
        assert(views.take(i + 1).drop_last() =~= views.take(i as int));
        assert(views[i as int] == parts@[i as int]@);
        if i > 0 {
            joined.append(" ");
        } else {
            assert(joined@ =~= Seq::<char>::empty());
        }
        joined.append(parts[i].as_str());
        proof {
            if i == 0 {
                assert(joined@ =~= views.take(1)[0]);
            }
        }
        i += 1;
    }
    assert(views.take(parts@.len() as int) =~= views);
    joined
}

/// Builds the SVG document of a bundled icon.
pub fn build_svg(icon: &IconData) -> (r: String)
    ensures
        r@ == svg_document(*icon),
{
    let attrs = svg_attr_strings(icon);
    let joined = join_with_spaces(&attrs);
    let mut doc = String::from_str("<svg ");
    doc.append(joined.as_str());
    doc.append(">");
    doc.append(icon.data.as_str());
    doc.append("</svg>");
    doc
}

/// The hasher writes that hashing a string makes (`<str as Hash>::hash`).
pub uninterp spec fn str_hash_writes(data: Seq<char>) -> Seq<Seq<u8>>;

/// Trusted: `<str as Hash>::hash` feeds the hasher a sequence of writes
/// that depends on the string alone; which writes is not stated.
#[verifier::external_body]
fn hash_str(data: &str, state: &mut DefaultHasher)
    ensures
        final(state)@ == old(state)@ + str_hash_writes(data@),
{
    data.hash(state);
}

/// The hash an icon is registered under: its path data hashed with a fresh
/// `DefaultHasher`.
pub open spec fn icon_hash(data: Seq<char>) -> u64 {
    DefaultHasher::spec_finish(str_hash_writes(data))
}

pub fn icon_data_hash(data: &str) -> (r: u64)
    ensures
        r == icon_hash(data@),
{
    let mut hasher = DefaultHasher::new();
    hash_str(data, &mut hasher);
    assert(hasher@ =~= str_hash_writes(data@));
    hasher.finish()
}

/// An icon element: the path of its SVG and the classes of its container.
pub struct Icon {
    path: String,
    classes: String,
}

impl Icon {
    pub closed spec fn path(&self) -> Seq<char> {
        self.path@
    }

    pub closed spec fn classes(&self) -> Seq<char> {
        self.classes@
    }

    /// An icon from a file path, or from bundled data, which is registered
    /// (if not already) and referenced through its virtual path.
    pub fn new(source: IconSource, registry: &mut AssetRegistry) -> (r: Icon)
        ensures
            r.classes() == Seq::<char>::empty(),
            final(registry).optimized_images@ == old(registry).optimized_images@,
            match source {
                IconSource::Path(p) => r.path() == p@ && final(registry).icons@ == old(registry).icons@,
                IconSource::Icondata(icon) => {
                    let h = icon_hash(icon.data@);
                    &&& r.path() == icon_path(h)
                    &&& final(registry).icons@.contains_key(h)
                    &&& final(registry).icons@[h]@ == if old(registry).icons@.contains_key(h) {
                        old(registry).icons@[h]@
                    } else {
                        svg_document(icon)
                    }
                    &&& forall|k: u64| k != h ==> (#[trigger] final(registry).icons@.contains_key(k)
                        == old(registry).icons@.contains_key(k))
                    &&& forall|k: u64| k != h && old(registry).icons@.contains_key(k)
                        ==> #[trigger] final(registry).icons@[k] == old(registry).icons@[k]
                },
            },
    {
        let path = match source {
            IconSource::Path(p) => p,
            IconSource::Icondata(icon) => {
                let hash = icon_data_hash(icon.data.as_str());
                let svg = build_svg(&icon);
                registry.register_icon(hash, svg);
                icon_virtual_path(hash)
            },
        };
        Icon { path, classes: String::new() }
    }

    /// Appends utility classes to the icon's container.
    pub fn class(self, classes: String) -> (r: Icon)
        ensures
            r.path() == self.path(),
            r.classes() == joined_classes(self.classes(), classes@),
    {
        let joined = append_classes(self.classes.as_str(), classes.as_str());
        Icon { path: self.path, classes: joined }
    }

    /// The path the icon's SVG is loaded from.
    pub fn svg_path(&self) -> (r: &String)
        ensures
            r@ == self.path(),
    {
        &self.path
    }

    /// The utility classes of the icon's container.
    pub fn class_list(&self) -> (r: &String)
        ensures
            r@ == self.classes(),
    {
        &self.classes
    }
}

/// Creates an [`Icon`].
pub fn icon(source: IconSource, registry: &mut AssetRegistry) -> (r: Icon)
    ensures
        r.classes() == Seq::<char>::empty(),
        final(registry).optimized_images@ == old(registry).optimized_images@,
        match source {
            IconSource::Path(p) => r.path() == p@ && final(registry).icons@ == old(registry).icons@,
            IconSource::Icondata(icon) => {
                let h = icon_hash(icon.data@);
                &&& r.path() == icon_path(h)
                &&& final(registry).icons@.contains_key(h)
                &&& final(registry).icons@[h]@ == if old(registry).icons@.contains_key(h) {
                    old(registry).icons@[h]@
                } else {
                    svg_document(icon)
                }
            },
        },
{
    Icon::new(source, registry)
}

/// Each part of a space-joined list appears in it, at the returned offset.
proof fn lemma_join_spaced_part(parts: Seq<Seq<char>>, k: int) -> (off: int)
    requires
        0 <= k < parts.len(),
    ensures
        0 <= off,
        off + parts[k].len() <= join_spaced(parts).len(),
        join_spaced(parts).subrange(off, off + parts[k].len()) == parts[k],
    decreases parts.len(),
{
    if parts.len() == 1 {
        assert(join_spaced(parts).subrange(0, parts[0].len() as int) =~= parts[0]);
        0
    } else {
        let init = parts.drop_last();
        let j = join_spaced(init);
        let whole = join_spaced(parts);
        reveal_strlit(" ");
        assert(whole == j + " "@ + parts.last());
        if k == parts.len() - 1 {
            let off: int = j.len() as int + 1;
            assert(whole.subrange(off, off + parts[k].len()) =~= parts[k]);
            off
        } else {
            let off = lemma_join_spaced_part(init, k);
            assert(init[k] == parts[k]);
            assert(whole.subrange(off, off + parts[k].len()) =~= j.subrange(off, off + parts[k].len()));
            off
        }
    }
}

proof fn lemma_document_holds_attr(icon: IconData, k: int)
    requires
        0 <= k < svg_attrs(icon).len(),
    ensures
        contains_seq(svg_document(icon), svg_attrs(icon)[k]),
{
    let parts = svg_attrs(icon);
    let p = parts[k];
    let doc = svg_document(icon);
    let off = lemma_join_spaced_part(parts, k);
    reveal_strlit("<svg ");
    let j = join_spaced(parts);
    let at: int = 5 + off;
    assert(doc.skip(at).take(p.len() as int) =~= j.subrange(off, off + p.len()));
    assert(occurs_at(doc, p, at));
}

/// Every stroke setting of the icon data is written into its SVG document
/// as `name="value"`: `stroke`, `stroke-width`, `stroke-linecap` and
/// `stroke-linejoin`.
pub proof fn lemma_stroke_settings_in_document(icon: IconData)
    ensures
        icon.stroke matches Some(v) ==> contains_seq(svg_document(icon), "stroke=\""@ + v@ + "\""@),
        icon.stroke_width matches Some(v) ==> contains_seq(
            svg_document(icon),
            "stroke-width=\""@ + v@ + "\""@,
        ),
        icon.stroke_linecap matches Some(v) ==> contains_seq(
            svg_document(icon),
            "stroke-linecap=\""@ + v@ + "\""@,
        ),
        icon.stroke_linejoin matches Some(v) ==> contains_seq(
            svg_document(icon),
            "stroke-linejoin=\""@ + v@ + "\""@,
        ),
{
    let parts = svg_attrs(icon);
    let a = opt_attr("stroke"@, opt_text(icon.stroke));
    let b = opt_attr("stroke-width"@, opt_text(icon.stroke_width));
    let c = opt_attr("stroke-linecap"@, opt_text(icon.stroke_linecap));
    let d = opt_attr("stroke-linejoin"@, opt_text(icon.stroke_linejoin));
    let head = parts.take(5);
    assert(parts =~= head + a + b + c + d);
    if let Some(v) = icon.stroke {
        assert(parts[5] == a[0]);
        lemma_document_holds_attr(icon, 5);
        reveal_strlit("stroke");
        reveal_strlit("=\"");
        reveal_strlit("stroke=\"");
        assert(a[0] =~= "stroke=\""@ + v@ + "\""@);
    }
    if let Some(v) = icon.stroke_width {
        let k: int = 5 + a.len() as int;
        assert(parts[k] == b[0]);
        lemma_document_holds_attr(icon, k);
        reveal_strlit("stroke-width");
        reveal_strlit("=\"");
        reveal_strlit("stroke-width=\"");
        assert(b[0] =~= "stroke-width=\""@ + v@ + "\""@);
    }
    if let Some(v) = icon.stroke_linecap {
        let k: int = 5 + a.len() as int + b.len() as int;
        assert(parts[k] == c[0]);
        lemma_document_holds_attr(icon, k);
        reveal_strlit("stroke-linecap");
        reveal_strlit("=\"");
        reveal_strlit("stroke-linecap=\"");
        assert(c[0] =~= "stroke-linecap=\""@ + v@ + "\""@);
    }
    if let Some(v) = icon.stroke_linejoin {
        let k: int = 5 + a.len() as int + b.len() as int + c.len() as int;
        assert(parts[k] == d[0]);
        lemma_document_holds_attr(icon, k);
        reveal_strlit("stroke-linejoin");
        reveal_strlit("=\"");
        reveal_strlit("stroke-linejoin=\"");
        assert(d[0] =~= "stroke-linejoin=\""@ + v@ + "\""@);
    }
}

} // verus!
