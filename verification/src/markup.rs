//! How the `view!` macro lowers markup: text children, and an element's
//! attributes, classes and children into the steps of a builder chain.

use vstd::prelude::*;
use crate::text::{
    chars_of, string_of, trim_chars, trim_char_chars, trim_white_space, trim_char, eq_str,
    contains_seq,
};
use crate::tailwind::{
    Palette, ClassPlan, Style, StyleView, ModifierView, plan_classes, plan_animations,
    is_class_plan, class_rules, styles_with, style_views, needs_auto_id,
};

verus! {

/// The content of a markup text node: trimmed of white space, then of
/// surrounding double quotes.
pub open spec fn text_content(raw: Seq<char>) -> Seq<char> {
    trim_char(trim_white_space(raw), '"')
}

/// The text a markup text node contributes: its content, or nothing when
/// that is empty (formatting white space between tags).
pub fn text_node_content(raw: &str) -> (r: Option<String>)
    ensures
        match r {
            Some(t) => text_content(raw@).len() > 0 && t@ == text_content(raw@),
            None => text_content(raw@).len() == 0,
        },
{
    let cs = chars_of(raw);
    let trimmed = trim_chars(&cs);
    let content = trim_char_chars(&trimmed, '"');
    if content.len() == 0 {
        None
    } else {
        Some(string_of(&content))
    }
}

/// The value of a markup attribute.
#[derive(Debug, PartialEq, Eq)]
pub enum AttrValue {
    /// A string literal.
    Literal(String),
    /// Any other expression; the emitter passes it through as written.
    Expr,
    /// A key with no value.
    Absent,
}

pub enum AttrValueView {
    Literal(Seq<char>),
    Expr,
    Absent,
}

impl View for AttrValue {
    type V = AttrValueView;

    open spec fn view(&self) -> AttrValueView {
        match self {
            AttrValue::Literal(t) => AttrValueView::Literal(t@),
            AttrValue::Expr => AttrValueView::Expr,
            AttrValue::Absent => AttrValueView::Absent,
        }
    }
}

/// A `key=value` attribute of an element.
#[derive(Debug, PartialEq, Eq)]
pub struct MarkupAttr {
    pub key: String,
    pub value: AttrValue,
}

impl View for MarkupAttr {
    type V = (Seq<char>, AttrValueView);

    open spec fn view(&self) -> (Seq<char>, AttrValueView) {
        (self.key@, self.value@)
    }
}

/// A child node of an element.
#[derive(Debug, PartialEq, Eq)]
pub enum MarkupChild {
    Element,
    /// A text node, as written between the tags.
    Text(String),
    /// A `{ ... }` block.
    Block,
    /// A comment, doctype or fragment: emits nothing.
    Other,
}

pub enum MarkupChildView {
    Element,
    Text(Seq<char>),
    Block,
    Other,
}

impl View for MarkupChild {
    type V = MarkupChildView;

    open spec fn view(&self) -> MarkupChildView {
        match self {
            MarkupChild::Element => MarkupChildView::Element,
            MarkupChild::Text(t) => MarkupChildView::Text(t@),
            MarkupChild::Block => MarkupChildView::Block,
            MarkupChild::Other => MarkupChildView::Other,
        }
    }
}

/// One step of an element's builder chain, after its constructor.
#[derive(Debug, PartialEq, Eq)]
pub enum ElementStep {
    /// `.id(..)` with the value of the attribute at this index.
    Id(usize),
    /// `.id("auto-id")`, which `active:` and animations need.
    AutoId,
    /// The styles of the `class` attribute at this index.
    Classes(usize, ClassPlan),
    /// `.key(value)` for the attribute at this index.
    Attr(usize),
}

pub enum ElementStepView {
    Id(int),
    AutoId,
    Classes(int),
    Attr(int),
}

impl View for ElementStep {
    type V = ElementStepView;

    open spec fn view(&self) -> ElementStepView {
        match self {
            ElementStep::Id(i) => ElementStepView::Id(*i as int),
            ElementStep::AutoId => ElementStepView::AutoId,
            ElementStep::Classes(i, _) => ElementStepView::Classes(*i as int),
            ElementStep::Attr(i) => ElementStepView::Attr(*i as int),
        }
    }
}

/// A `.child(..)` of the chain.
#[derive(Debug, PartialEq, Eq)]
pub enum ChildStep {
    /// The child node at this index, lowered in its turn.
    Node(usize),
    /// A text child, by its content.
    Text(String),
}

pub enum ChildStepView {
    Node(int),
    Text(Seq<char>),
}

impl View for ChildStep {
    type V = ChildStepView;

    open spec fn view(&self) -> ChildStepView {
        match self {
            ChildStep::Node(i) => ChildStepView::Node(*i as int),
            ChildStep::Text(t) => ChildStepView::Text(t@),
        }
    }
}

/// A layer drawn after the rest of the window, above it.
#[derive(PartialEq, Eq, Structural, Clone, Copy, Debug)]
pub struct Overlay {
    /// Drawn in a deferred pass.
    pub deferred: bool,
    /// Placed absolutely, at `left`, `top` (px).
    pub absolute: bool,
    pub left: u32,
    pub top: u32,
    pub full_width: bool,
    pub full_height: bool,
    /// Higher priorities are drawn later.
    pub priority: u32,
}

/// What a `Portal` becomes: a deferred, absolutely placed layer at 0,0
/// spanning the full width and height, drawn with priority 999.
pub open spec fn portal_overlay() -> Overlay {
    Overlay {
        deferred: true,
        absolute: true,
        left: 0,
        top: 0,
        full_width: true,
        full_height: true,
        priority: 999,
    }
}

/// How an element is lowered. A `Portal` is an overlay holding its
/// children, with no attribute steps.
#[derive(Debug, PartialEq, Eq)]
pub struct ElementPlan {
    pub portal: bool,
    /// The layer the children are drawn in, for a portal.
    pub overlay: Option<Overlay>,
    pub steps: Vec<ElementStep>,
    /// The `.child(..)` calls, each with the children whose lowered forms
    /// are written one after another as its argument.
    pub child_calls: Vec<Vec<ChildStep>>,
    /// Wrapped around the finished chain in this order, the first innermost.
    pub animations: Vec<Style>,
}

pub open spec fn attr_views(v: Seq<MarkupAttr>) -> Seq<(Seq<char>, AttrValueView)> {
    v.map_values(|a: MarkupAttr| a@)
}

pub open spec fn child_views(v: Seq<MarkupChild>) -> Seq<MarkupChildView> {
    v.map_values(|c: MarkupChild| c@)
}

pub open spec fn step_views(v: Seq<ElementStep>) -> Seq<ElementStepView> {
    v.map_values(|s: ElementStep| s@)
}

pub open spec fn child_step_views(v: Seq<ChildStep>) -> Seq<ChildStepView> {
    v.map_values(|s: ChildStep| s@)
}

pub open spec fn child_call_views(v: Seq<Vec<ChildStep>>) -> Seq<Seq<ChildStepView>> {
    v.map_values(|c: Vec<ChildStep>| child_step_views(c@))
}

/// The `.child(..)` calls of the children `steps`: a portal joins them all
/// into its single call (which only compiles when exactly one child gives
/// anything); any other element gives each its own call.
pub open spec fn child_calls(portal: bool, steps: Seq<ChildStepView>) -> Seq<Seq<ChildStepView>> {
    if portal {
        seq![steps]
    } else {
        steps.map_values(|c: ChildStepView| seq![c])
    }
}

/// The `.id(..)` steps: every `id` attribute with a value, in order.
pub open spec fn id_steps(attrs: Seq<(Seq<char>, AttrValueView)>) -> Seq<ElementStepView>
    decreases attrs.len(),
{
    if attrs.len() == 0 {
        Seq::empty()
    } else {
        let prev = id_steps(attrs.drop_last());
        let a = attrs.last();
        if a.0 == "id"@ && !(a.1 is Absent) {
            prev.push(ElementStepView::Id(attrs.len() - 1))
        } else {
            prev
        }
    }
}

pub open spec fn has_id_attr(attrs: Seq<(Seq<char>, AttrValueView)>) -> bool {
    exists|i: int| 0 <= i < attrs.len() && (#[trigger] attrs[i]).0 == "id"@
}

/// Classes that need a stateful element: `active:` styles or an animation.
pub open spec fn is_stateful_class_list(s: Seq<char>) -> bool {
    contains_seq(s, "active:"@) || contains_seq(s, "animate-"@)
}

/// The steps of the other attributes, in order, and whether the element
/// has an id after them: a `class` literal adds its classes, after an
/// automatic id when it needs one; any other key but `id` with a value
/// becomes a method call.
pub open spec fn attr_steps(attrs: Seq<(Seq<char>, AttrValueView)>, has_id: bool) -> (Seq<ElementStepView>, bool)
    decreases attrs.len(),
{
    if attrs.len() == 0 {
        (Seq::empty(), has_id)
    } else {
        let (prev, h) = attr_steps(attrs.drop_last(), has_id);
        let i = attrs.len() - 1;
        let a = attrs.last();
        if a.0 == "class"@ {
            match a.1 {
                AttrValueView::Literal(s) => {
                    let auto = is_stateful_class_list(s) && !h;
                    let with_id = if auto { prev.push(ElementStepView::AutoId) } else { prev };
                    (with_id.push(ElementStepView::Classes(i)), h || auto)
                },
                _ => (prev, h),
            }
        } else if a.0 != "id"@ && !(a.1 is Absent) {
            (prev.push(ElementStepView::Attr(i)), h)
        } else {
            (prev, h)
        }
    }
}

/// The animation styles of the `class` literals, in order.
pub open spec fn element_animations(
    attrs: Seq<(Seq<char>, AttrValueView)>,
    palette: Seq<(Seq<char>, u32)>,
) -> Seq<StyleView>
    decreases attrs.len(),
{
    if attrs.len() == 0 {
        Seq::empty()
    } else {
        let prev = element_animations(attrs.drop_last(), palette);
        let a = attrs.last();
        match a.1 {
            AttrValueView::Literal(s) if a.0 == "class"@ =>
                prev + styles_with(class_rules(s, palette), ModifierView::Animate),
            _ => prev,
        }
    }
}

/// The `.child(..)` steps: elements and blocks always, text nodes when
/// their content is not empty.
pub open spec fn child_steps(children: Seq<MarkupChildView>) -> Seq<ChildStepView>
    decreases children.len(),
{
    if children.len() == 0 {
        Seq::empty()
    } else {
        let prev = child_steps(children.drop_last());
        let i = children.len() - 1;
        match children.last() {
            MarkupChildView::Element | MarkupChildView::Block => prev.push(ChildStepView::Node(i)),
            MarkupChildView::Text(raw) => if text_content(raw).len() > 0 {
                prev.push(ChildStepView::Text(text_content(raw)))
            } else {
                prev
            },
            MarkupChildView::Other => prev,
        }
    }
}

/// The steps of an element that is not a portal.
pub open spec fn element_steps(attrs: Seq<(Seq<char>, AttrValueView)>) -> Seq<ElementStepView> {
    id_steps(attrs) + attr_steps(attrs, has_id_attr(attrs)).0
}

/// Every `Classes` step names a `class` literal and holds its plan.
pub open spec fn classes_planned(
    steps: Seq<ElementStep>,
    attrs: Seq<MarkupAttr>,
    palette: Seq<(Seq<char>, u32)>,
) -> bool {
    forall|k: int| 0 <= k < steps.len() ==> match #[trigger] steps[k] {
        ElementStep::Classes(i, plan) => {
            &&& i < attrs.len()
            &&& attrs[i as int].value matches AttrValue::Literal(t)
            &&& is_class_plan(plan, t@, palette)
        },
        _ => true,
    }
}

fn key_is(key: &String, lit: &str) -> (r: bool)
    ensures
        r == (key@ == lit@),
{
    eq_str(&chars_of(key.as_str()), lit)
}

fn id_pass(attrs: &Vec<MarkupAttr>) -> (r: (Vec<ElementStep>, bool))
    ensures
        step_views(r.0@) == id_steps(attr_views(attrs@)),
        r.1 == has_id_attr(attr_views(attrs@)),
{
    let ghost av = attr_views(attrs@);
    let mut steps: Vec<ElementStep> = Vec::new();
    let mut has_id = false;
    let mut i: usize = 0;
    while i < attrs.len()
        invariant
            i <= attrs@.len(),
            av == attr_views(attrs@),
            step_views(steps@) == id_steps(av.take(i as int)),
            has_id == has_id_attr(av.take(i as int)),
        decreases attrs@.len() - i,
    {
        assert(av.take(i + 1).drop_last() =~= av.take(i as int));
        assert(av.take(i + 1).last() == attrs@[i as int]@);
        if key_is(&attrs[i].key, "id") {
            has_id = true;
            assert(av.take(i + 1)[i as int].0 == "id"@);
            match attrs[i].value {
                AttrValue::Absent => {},
                _ => {
                    steps.push(ElementStep::Id(i));
                    assert(step_views(steps@) =~= id_steps(av.take(i as int)).push(ElementStepView::Id(i as int)));
                },
            }
        } else {
            assert(has_id_attr(av.take(i + 1)) == has_id_attr(av.take(i as int))) by {
                if has_id_attr(av.take(i + 1)) {
                    let j = choose|j: int| 0 <= j < i + 1 && (#[trigger] av.take(i + 1)[j]).0 == "id"@;
                    assert(av.take(i as int)[j] == av.take(i + 1)[j]);
                }
                if has_id_attr(av.take(i as int)) {
                    let j = choose|j: int| 0 <= j < i && (#[trigger] av.take(i as int)[j]).0 == "id"@;
                    assert(av.take(i as int)[j] == av.take(i + 1)[j]);
                }
            }
        }
        i += 1;
    }
    assert(av.take(attrs@.len() as int) =~= av);
    (steps, has_id)
}

fn attr_pass(attrs: &Vec<MarkupAttr>, palette: &Palette, has_id: bool) -> (r: (Vec<ElementStep>, Vec<Style>))
    ensures
        step_views(r.0@) == attr_steps(attr_views(attrs@), has_id).0,
        classes_planned(r.0@, attrs@, palette@),
        style_views(r.1@) == element_animations(attr_views(attrs@), palette@),
{
    let ghost av = attr_views(attrs@);
    let mut steps: Vec<ElementStep> = Vec::new();
    let mut animations: Vec<Style> = Vec::new();
    let mut h = has_id;
    let mut i: usize = 0;
    while i < attrs.len()
        invariant
            i <= attrs@.len(),
            av == attr_views(attrs@),
            (step_views(steps@), h) == attr_steps(av.take(i as int), has_id),
            classes_planned(steps@, attrs@, palette@),
            style_views(animations@) == element_animations(av.take(i as int), palette@),
        decreases attrs@.len() - i,
    {
        let ghost before = steps@;
        let ghost anim_before = animations@;
        assert(av.take(i + 1).drop_last() =~= av.take(i as int));
        assert(av.take(i + 1).last() == attrs@[i as int]@);
        let a = &attrs[i];
        if key_is(&a.key, "class") {
            match &a.value {
                AttrValue::Literal(t) => {
                    let auto = needs_auto_id(t.as_str(), h);
                    if auto {
                        steps.push(ElementStep::AutoId);
                        h = true;
                    }
                    let ghost mid = steps@;
                    let plan = plan_classes(t.as_str(), palette);
                    let mut anims = plan_animations(&plan, Ghost(t@), Ghost(palette@));
                    steps.push(ElementStep::Classes(i, plan));
                    assert(step_views(steps@) =~= step_views(mid).push(ElementStepView::Classes(i as int)));
                    assert(step_views(mid) =~= (if auto { step_views(before).push(ElementStepView::AutoId) } else { step_views(before) }));
                    assert(classes_planned(steps@, attrs@, palette@)) by {
                        assert forall|k: int| 0 <= k < steps@.len() implies match #[trigger] steps@[k] {
                            ElementStep::Classes(j, p) => {
                                &&& j < attrs@.len()
                                &&& attrs@[j as int].value matches AttrValue::Literal(u)
                                &&& is_class_plan(p, u@, palette@)
                            },
                            _ => true,
                        } by {
                            if k < before.len() {
                                assert(steps@[k] == before[k]);
                            } else if k < mid.len() {
                                assert(steps@[k] == mid[k]);
                            }
                        }
                    }
                    let ghost added = anims@;
                    animations.append(&mut anims);
                    assert(style_views(animations@) =~= style_views(anim_before) + style_views(added));
                },
                _ => {},
            }
        } else if !key_is(&a.key, "id") {
            match &a.value {
                AttrValue::Absent => {},
                _ => {
                    steps.push(ElementStep::Attr(i));
                    assert(step_views(steps@) =~= step_views(before).push(ElementStepView::Attr(i as int)));
                    assert(classes_planned(steps@, attrs@, palette@)) by {
                        assert forall|k: int| 0 <= k < steps@.len() implies match #[trigger] steps@[k] {
                            ElementStep::Classes(j, p) => {
                                &&& j < attrs@.len()
                                &&& attrs@[j as int].value matches AttrValue::Literal(u)
                                &&& is_class_plan(p, u@, palette@)
                            },
                            _ => true,
                        } by {
                            if k < before.len() {
                                assert(steps@[k] == before[k]);
                            }
                        }
                    }
                },
            }
        }
        i += 1;
    }
    assert(av.take(attrs@.len() as int) =~= av);
    (steps, animations)
}

fn child_pass(children: &Vec<MarkupChild>) -> (r: Vec<ChildStep>)
    ensures
        child_step_views(r@) == child_steps(child_views(children@)),
{
    let ghost cv = child_views(children@);
    let mut out: Vec<ChildStep> = Vec::new();
    let mut i: usize = 0;
    while i < children.len()
        invariant
            i <= children@.len(),
            cv == child_views(children@),
            child_step_views(out@) == child_steps(cv.take(i as int)),
        decreases children@.len() - i,
    {
        let ghost before = out@;
        assert(cv.take(i + 1).drop_last() =~= cv.take(i as int));
        assert(cv.take(i + 1).last() == children@[i as int]@);
        match &children[i] {
            MarkupChild::Element | MarkupChild::Block => {
                out.push(ChildStep::Node(i));
                assert(child_step_views(out@) =~= child_step_views(before).push(ChildStepView::Node(i as int)));
            },
            MarkupChild::Text(raw) => {
                match text_node_content(raw.as_str()) {
                    Some(t) => {
                        let ghost tv = t@;
                        out.push(ChildStep::Text(t));
                        assert(child_step_views(out@) =~= child_step_views(before).push(ChildStepView::Text(tv)));
                    },
                    None => {},
                }
            },
            MarkupChild::Other => {},
        }
        i += 1;
    }
    assert(cv.take(children@.len() as int) =~= cv);
    out
}

fn one_call_each(steps: Vec<ChildStep>) -> (r: Vec<Vec<ChildStep>>)
    ensures
        child_call_views(r@) == child_calls(false, child_step_views(steps@)),
{
    let ghost all = child_step_views(steps@);
    let mut rest = steps;
    let mut out: Vec<Vec<ChildStep>> = Vec::new();
    while rest.len() > 0
        invariant
            out@.len() + rest@.len() == all.len(),
            child_step_views(rest@) == all.skip(out@.len() as int),
            child_call_views(out@) == child_calls(false, all.take(out@.len() as int)),
        decreases rest@.len(),
    {
        let ghost k = out@.len() as int;
        let ghost before = out@;
        let ghost rb = rest@;
        let c = rest.remove(0);
        assert(child_step_views(rb)[0] == all.skip(k)[0]);
        assert(c@ == all[k]);
        assert(child_step_views(rest@) =~= child_step_views(rb).skip(1));
        out.push(vec![c]);
        assert(child_step_views(rest@) =~= all.skip(k + 1));
        assert(child_step_views(out@[k]@) =~= seq![all[k]]);
        assert(child_call_views(out@) =~= child_calls(false, all.take(k + 1))) by {
            assert(child_call_views(out@) =~= child_call_views(before).push(seq![all[k]]));
            assert(all.take(k + 1) =~= all.take(k).push(all[k]));
        }
    }
    assert(all.take(all.len() as int) =~= all);
    out
}

/// Lower one element of `view!` markup: its tag, its attributes in order
/// and its children in order. A portal places all its children's lowered
/// forms, one after another, in the single `.child(..)` of its overlay; any
/// other element gives each child its own `.child(..)`.
pub fn process_element(
    tag: &str,
    attrs: &Vec<MarkupAttr>,
    children: &Vec<MarkupChild>,
    palette: &Palette,
) -> (r: ElementPlan)
    ensures
        r.portal == (tag@ == "Portal"@),
        r.overlay == (if r.portal { Some(portal_overlay()) } else { None }),
        step_views(r.steps@) == (if r.portal { Seq::empty() } else { element_steps(attr_views(attrs@)) }),
        classes_planned(r.steps@, attrs@, palette@),
        child_call_views(r.child_calls@) == child_calls(r.portal, child_steps(child_views(children@))),
        style_views(r.animations@) == (if r.portal {
            Seq::empty()
        } else {
            element_animations(attr_views(attrs@), palette@)
        }),
{
    let portal = eq_str(&chars_of(tag), "Portal");
    let kids = child_pass(children);
    if portal {
        proof {
            assert(step_views(Seq::<ElementStep>::empty()) =~= Seq::empty());
            assert(style_views(Seq::<Style>::empty()) =~= Seq::empty());
        }
        let overlay = Overlay {
            deferred: true,
            absolute: true,
            left: 0,
            top: 0,
            full_width: true,
            full_height: true,
            priority: 999,
        };
        let ghost kv = child_step_views(kids@);
        let calls = vec![kids];
        assert(child_call_views(calls@) =~= seq![kv]);
        return ElementPlan {
            portal,
            overlay: Some(overlay),
            steps: Vec::new(),
            child_calls: calls,
            animations: Vec::new(),
        };
    }
    let (mut steps, has_id) = id_pass(attrs);
    let ghost id_part = steps@;
    let (mut rest, animations) = attr_pass(attrs, palette, has_id);
    let ghost rest_part = rest@;
    steps.append(&mut rest);
    proof {
        assert(step_views(steps@) =~= step_views(id_part) + step_views(rest_part));
        assert forall|k: int| 0 <= k < steps@.len() implies match #[trigger] steps@[k] {
            ElementStep::Classes(i, p) => {
                &&& i < attrs@.len()
                &&& attrs@[i as int].value matches AttrValue::Literal(u)
                &&& is_class_plan(p, u@, palette@)
            },
            _ => true,
        } by {
            if k < id_part.len() {
                assert(steps@[k] == id_part[k]);
                assert(step_views(id_part)[k] == id_steps(attr_views(attrs@))[k]);
                lemma_id_steps_are_ids(attr_views(attrs@), k);
            } else {
                assert(steps@[k] == rest_part[k - id_part.len()]);
            }
        }
    }
    ElementPlan { portal, overlay: None, steps, child_calls: one_call_each(kids), animations }
}

proof fn lemma_id_steps_are_ids(attrs: Seq<(Seq<char>, AttrValueView)>, k: int)
    requires
        0 <= k < id_steps(attrs).len(),
    ensures
        id_steps(attrs)[k] is Id,
    decreases attrs.len(),
{
    let prev = id_steps(attrs.drop_last());
    if k < prev.len() {
        lemma_id_steps_are_ids(attrs.drop_last(), k);
    }
}

proof fn lemma_id_steps_nonempty(attrs: Seq<(Seq<char>, AttrValueView)>, i: int)
    requires
        0 <= i < attrs.len(),
        attrs[i].0 == "id"@,
        !(attrs[i].1 is Absent),
    ensures
        id_steps(attrs).len() > 0,
    decreases attrs.len(),
{
    if i < attrs.len() - 1 {
        lemma_id_steps_nonempty(attrs.drop_last(), i);
    }
}

proof fn lemma_attr_steps_auto_id(attrs: Seq<(Seq<char>, AttrValueView)>, h0: bool)
    ensures
        attr_steps(attrs, h0).1 ==> h0 || exists|j: int|
            0 <= j < attr_steps(attrs, h0).0.len() && (#[trigger] attr_steps(attrs, h0).0[j]) is AutoId,
        forall|k: int| 0 <= k < attr_steps(attrs, h0).0.len() ==> match #[trigger] attr_steps(attrs, h0).0[k] {
            ElementStepView::Classes(i) => 0 <= i < attrs.len() && ((attrs[i].1 matches AttrValueView::Literal(s)
                && is_stateful_class_list(s)) ==> h0 || exists|j: int|
                0 <= j < k && (#[trigger] attr_steps(attrs, h0).0[j]) is AutoId),
            _ => true,
        },
    decreases attrs.len(),
{
    if attrs.len() > 0 {
        let pre = attrs.drop_last();
        lemma_attr_steps_auto_id(pre, h0);
        let (prev, h) = attr_steps(pre, h0);
        let steps = attr_steps(attrs, h0).0;
        assert forall|k: int| 0 <= k < prev.len() implies steps[k] == prev[k] by {
            let a = attrs.last();
            if a.0 == "class"@ {
                if let AttrValueView::Literal(t) = a.1 {
                    let auto = is_stateful_class_list(t) && !h;
                    let with_id = if auto { prev.push(ElementStepView::AutoId) } else { prev };
                    assert(with_id[k] == prev[k]);
                }
            }
        }
        if attr_steps(attrs, h0).1 && !h0 {
            if h {
                let j = choose|j: int| 0 <= j < prev.len() && (#[trigger] prev[j]) is AutoId;
                assert(steps[j] is AutoId);
            } else {
                assert(steps[prev.len() as int] is AutoId);
            }
        }
        assert forall|k: int| 0 <= k < steps.len() implies match #[trigger] steps[k] {
            ElementStepView::Classes(i) => 0 <= i < attrs.len() && ((attrs[i].1 matches AttrValueView::Literal(s)
                && is_stateful_class_list(s)) ==> h0 || exists|j: int|
                0 <= j < k && (#[trigger] steps[j]) is AutoId),
            _ => true,
        } by {
            if k < prev.len() {
                if let ElementStepView::Classes(i) = prev[k] {
                    assert(pre[i] == attrs[i]);
                    if !h0 && (attrs[i].1 matches AttrValueView::Literal(s) && is_stateful_class_list(s)) {
                        let j = choose|j: int| 0 <= j < k && (#[trigger] prev[j]) is AutoId;
                        assert(steps[j] is AutoId);
                    }
                }
            } else if let ElementStepView::Classes(i) = steps[k] {
                if !h0 && (attrs[i].1 matches AttrValueView::Literal(s) && is_stateful_class_list(s)) {
                    if h {
                        let j = choose|j: int| 0 <= j < prev.len() && (#[trigger] prev[j]) is AutoId;
                        assert(steps[j] is AutoId);
                    } else {
                        assert(steps[k - 1] is AutoId);
                    }
                }
            }
        }
    }
}

/// An element whose `class` literal uses `active:` styles or an animation
/// has an id before those classes are applied: its own, or a generated one.
/// (An `id` key written without a value suppresses the generated id.)
pub proof fn lemma_stateful_classes_follow_an_id(attrs: Seq<(Seq<char>, AttrValueView)>, k: int)
    requires
        forall|j: int| 0 <= j < attrs.len() && (#[trigger] attrs[j]).0 == "id"@ ==> !(attrs[j].1 is Absent),
        0 <= k < element_steps(attrs).len(),
        element_steps(attrs)[k] matches ElementStepView::Classes(i)
            && attrs[i].1 matches AttrValueView::Literal(s) && is_stateful_class_list(s),
    ensures
        exists|j: int| 0 <= j < k && ({
            let st = #[trigger] element_steps(attrs)[j];
            st is Id || st is AutoId
        }),
{
    let ids = id_steps(attrs);
    let has = has_id_attr(attrs);
    let rest = attr_steps(attrs, has).0;
    let all = element_steps(attrs);
    lemma_attr_steps_auto_id(attrs, has);
    if k < ids.len() {
        lemma_id_steps_are_ids(attrs, k);
        assert(all[k] == ids[k]);
    } else {
        assert(all[k] == rest[k - ids.len()]);
        if has {
            let i = choose|i: int| 0 <= i < attrs.len() && (#[trigger] attrs[i]).0 == "id"@;
            lemma_id_steps_nonempty(attrs, i);
            lemma_id_steps_are_ids(attrs, 0);
            assert(all[0] == ids[0]);
        } else {
            let j = choose|j: int| 0 <= j < k - ids.len() && (#[trigger] rest[j]) is AutoId;
            assert(all[j + ids.len()] == rest[j]);
        }
    }
}

/// An attribute with a value whose key is neither `class` nor `id`.
pub open spec fn is_plain_attr(a: (Seq<char>, AttrValueView)) -> bool {
    a.0 != "class"@ && a.0 != "id"@ && !(a.1 is Absent)
}

proof fn lemma_attr_steps_plain(attrs: Seq<(Seq<char>, AttrValueView)>, h0: bool)
    ensures
        forall|i: int| 0 <= i < attrs.len() && is_plain_attr(#[trigger] attrs[i]) ==>
            attr_steps(attrs, h0).0.contains(ElementStepView::Attr(i)),
        forall|k: int| 0 <= k < attr_steps(attrs, h0).0.len() ==> match #[trigger] attr_steps(attrs, h0).0[k] {
            ElementStepView::Attr(i) => 0 <= i < attrs.len() && is_plain_attr(attrs[i]),
            ElementStepView::Classes(i) => 0 <= i < attrs.len(),
            _ => true,
        },
        forall|k: int, l: int| 0 <= k < l < attr_steps(attrs, h0).0.len() ==> match (
            #[trigger] attr_steps(attrs, h0).0[k],
            #[trigger] attr_steps(attrs, h0).0[l],
        ) {
            (ElementStepView::Attr(i), ElementStepView::Attr(j)) => i < j,
            _ => true,
        },
    decreases attrs.len(),
{
    if attrs.len() > 0 {
        let pre = attrs.drop_last();
        lemma_attr_steps_plain(pre, h0);
        let (prev, h) = attr_steps(pre, h0);
        let steps = attr_steps(attrs, h0).0;
        let n = attrs.len() - 1;
        assert(steps.len() >= prev.len());
        assert forall|k: int| 0 <= k < prev.len() implies steps[k] == prev[k] by {
            let a = attrs.last();
            if a.0 == "class"@ {
                if let AttrValueView::Literal(t) = a.1 {
                    let auto = is_stateful_class_list(t) && !h;
                    let with_id = if auto { prev.push(ElementStepView::AutoId) } else { prev };
                    assert(with_id[k] == prev[k]);
                }
            }
        }
        assert forall|i: int| 0 <= i < attrs.len() && is_plain_attr(#[trigger] attrs[i]) implies
            steps.contains(ElementStepView::Attr(i)) by {
            if i < n {
                assert(pre[i] == attrs[i]);
                assert(prev.contains(ElementStepView::Attr(i)));
                let k = choose|k: int| 0 <= k < prev.len() && prev[k] == ElementStepView::Attr(i);
                assert(steps[k] == prev[k]);
            } else {
                assert(steps[prev.len() as int] == ElementStepView::Attr(i));
            }
        }
        assert forall|k: int| 0 <= k < steps.len() implies match #[trigger] steps[k] {
            ElementStepView::Attr(i) => 0 <= i < attrs.len() && is_plain_attr(attrs[i]),
            ElementStepView::Classes(i) => 0 <= i < attrs.len(),
            _ => true,
        } by {
            if k < prev.len() {
                assert(steps[k] == prev[k]);
                match prev[k] {
                    ElementStepView::Attr(i) => { assert(pre[i] == attrs[i]); },
                    _ => {},
                }
            }
        }
        assert forall|k: int, l: int| 0 <= k < l < steps.len() implies match (
            #[trigger] steps[k],
            #[trigger] steps[l],
        ) {
            (ElementStepView::Attr(i), ElementStepView::Attr(j)) => i < j,
            _ => true,
        } by {
            if l < prev.len() {
                assert(steps[k] == prev[k]);
                assert(steps[l] == prev[l]);
            } else if k < prev.len() {
                assert(steps[k] == prev[k]);
                if let ElementStepView::Attr(j) = steps[l] {
                    assert(j == n);
                    if let ElementStepView::Attr(i) = prev[k] {
                        assert(0 <= i < pre.len());
                    }
                }
            }
        }
    }
}

/// Every attribute with a value whose key is neither `class` nor `id`,
/// literal or expression, becomes its own `.key(value)` step, and these
/// steps come in attribute order; no other attribute gives one.
pub proof fn lemma_plain_attributes_become_calls(attrs: Seq<(Seq<char>, AttrValueView)>)
    ensures
        forall|i: int| 0 <= i < attrs.len() && is_plain_attr(#[trigger] attrs[i]) ==>
            element_steps(attrs).contains(ElementStepView::Attr(i)),
        forall|k: int| 0 <= k < element_steps(attrs).len() ==> match #[trigger] element_steps(attrs)[k] {
            ElementStepView::Attr(i) => 0 <= i < attrs.len() && is_plain_attr(attrs[i]),
            _ => true,
        },
        forall|k: int, l: int| 0 <= k < l < element_steps(attrs).len() ==> match (
            #[trigger] element_steps(attrs)[k],
            #[trigger] element_steps(attrs)[l],
        ) {
            (ElementStepView::Attr(i), ElementStepView::Attr(j)) => i < j,
            _ => true,
        },
{
    let ids = id_steps(attrs);
    let rest = attr_steps(attrs, has_id_attr(attrs)).0;
    let all = element_steps(attrs);
    lemma_attr_steps_plain(attrs, has_id_attr(attrs));
    assert forall|i: int| 0 <= i < attrs.len() && is_plain_attr(#[trigger] attrs[i]) implies
        all.contains(ElementStepView::Attr(i)) by {
        let k = choose|k: int| 0 <= k < rest.len() && rest[k] == ElementStepView::Attr(i);
        assert(all[ids.len() + k] == rest[k]);
    }
    assert forall|k: int| 0 <= k < all.len() implies match #[trigger] all[k] {
        ElementStepView::Attr(i) => 0 <= i < attrs.len() && is_plain_attr(attrs[i]),
        _ => true,
    } by {
        if k < ids.len() {
            lemma_id_steps_are_ids(attrs, k);
            assert(all[k] == ids[k]);
        } else {
            assert(all[k] == rest[k - ids.len()]);
        }
    }
    assert forall|k: int, l: int| 0 <= k < l < all.len() implies match (
        #[trigger] all[k],
        #[trigger] all[l],
    ) {
        (ElementStepView::Attr(i), ElementStepView::Attr(j)) => i < j,
        _ => true,
    } by {
        if k < ids.len() {
            lemma_id_steps_are_ids(attrs, k);
            assert(all[k] == ids[k]);
        } else {
            assert(all[k] == rest[k - ids.len()]);
            assert(all[l] == rest[l - ids.len()]);
        }
    }
}

} // verus!
