//! Virtual asset paths served from in-memory registries: generated SVG
//! icons under `gpux-icon/<hash>.svg` and optimized images under
//! `gpux-optimized/<hash>.webp|.png`. Other paths go to the wrapped asset
//! source.

use vstd::prelude::*;
use std::collections::HashMap;
use vstd::utf8::encode_utf8;
use vstd::slice::slice_to_vec;
use crate::text::{chars_of, has_prefix, has_suffix, matches_at, slice_chars, starts_with_str};
use crate::numbers::{parse_unsigned, parse_unsigned_chars, decimal, u64_to_decimal, lemma_decimal_parses, is_digit};

verus! {

/// `s` with every leading copy of `p` removed (`str::trim_start_matches`).
pub open spec fn trim_start_all(s: Seq<char>, p: Seq<char>) -> Seq<char>
    decreases s.len(),
{
    if p.len() > 0 && has_prefix(s, p) { trim_start_all(s.skip(p.len() as int), p) } else { s }
}

/// `s` with every trailing copy of `p` removed (`str::trim_end_matches`).
pub open spec fn trim_end_all(s: Seq<char>, p: Seq<char>) -> Seq<char>
    decreases s.len(),
{
    if p.len() > 0 && has_suffix(s, p) { trim_end_all(s.take(s.len() - p.len()), p) } else { s }
}

fn trim_start_chars(s: &[char], lit: &str) -> (r: Vec<char>)
    ensures
        r@ == trim_start_all(s@, lit@),
{
    let p = chars_of(lit);
    let n = s.len();
    let mut i: usize = 0;
    assert(s@.skip(0) =~= s@);
    while p.len() > 0 && matches_at(s, i, &p)
        invariant
            i <= n == s@.len(),
            p@ == lit@,
            trim_start_all(s@, p@) == trim_start_all(s@.skip(i as int), p@),
        decreases n - i,
    {
        assert(s@.skip(i as int).skip(p@.len() as int) =~= s@.skip(i + p@.len()));
        i = i + p.len();
    }
    slice_chars(s, i, n)
}

fn trim_end_chars(s: &[char], lit: &str) -> (r: Vec<char>)
    ensures
        r@ == trim_end_all(s@, lit@),
{
    let p = chars_of(lit);
    let mut k: usize = s.len();
    assert(s@.take(k as int) =~= s@);
    while p.len() > 0 && p.len() <= k && matches_at(s, k - p.len(), &p)
        invariant
            k <= s@.len(),
            p@ == lit@,
            trim_end_all(s@, p@) == trim_end_all(s@.take(k as int), p@),
        decreases k,
    {
        assert(s@.take(k as int).skip(k - p@.len()) =~= s@.skip(k - p@.len()).take(p@.len() as int));
        assert(s@.take(k as int).take(k - p@.len()) =~= s@.take(k - p@.len()));
        k = k - p.len();
    }
    proof {
        if p@.len() > 0 && p@.len() <= k {
            assert(s@.take(k as int).skip(k - p@.len()) =~= s@.skip(k - p@.len()).take(p@.len() as int));
        }
    }
    slice_chars(s, 0, k)
}

/// The hash named by a `gpux-icon/<hash>.svg` path.
pub open spec fn icon_key(path: Seq<char>) -> Option<nat> {
    if has_prefix(path, "gpux-icon/"@) {
        parse_unsigned(trim_end_all(trim_start_all(path, "gpux-icon/"@), ".svg"@), 10, u64::MAX as nat)
    } else {
        None
    }
}

/// The hash named by a `gpux-optimized/<hash>.webp` (or `.png`) path.
pub open spec fn optimized_key(path: Seq<char>) -> Option<nat> {
    if has_prefix(path, "gpux-optimized/"@) {
        parse_unsigned(
            trim_end_all(trim_end_all(trim_start_all(path, "gpux-optimized/"@), ".webp"@), ".png"@),
            10,
            u64::MAX as nat,
        )
    } else {
        None
    }
}

fn icon_key_of(path: &[char]) -> (r: Option<u64>)
    ensures
        match r {
            Some(h) => icon_key(path@) == Some(h as nat),
            None => icon_key(path@) is None,
        },
{
    if !starts_with_str(path, "gpux-icon/") {
        return None;
    }
    let rest = trim_start_chars(path, "gpux-icon/");
    let digits = trim_end_chars(&rest, ".svg");
    parse_unsigned_chars(&digits, 10, u64::MAX)
}

fn optimized_key_of(path: &[char]) -> (r: Option<u64>)
    ensures
        match r {
            Some(h) => optimized_key(path@) == Some(h as nat),
            None => optimized_key(path@) is None,
        },
{
    if !starts_with_str(path, "gpux-optimized/") {
        return None;
    }
    let rest = trim_start_chars(path, "gpux-optimized/");
    let a = trim_end_chars(&rest, ".webp");
    let digits = trim_end_chars(&a, ".png");
    parse_unsigned_chars(&digits, 10, u64::MAX)
}

/// The registered SVG icons and optimized images, by hash.
pub struct AssetRegistry {
    pub icons: HashMap<u64, String>,
    pub optimized_images: HashMap<u64, Vec<u8>>,
}

/// What loading `path` yields from the registries: the UTF-8 bytes of a
/// registered icon, else the bytes of a registered optimized image, else
/// nothing (the wrapped asset source is asked).
pub open spec fn registry_load(
    icons: Map<u64, String>,
    images: Map<u64, Vec<u8>>,
    path: Seq<char>,
) -> Option<Seq<u8>> {
    match icon_key(path) {
        Some(h) if icons.contains_key(h as u64) => Some(encode_utf8(icons[h as u64]@)),
        _ => match optimized_key(path) {
            Some(h) if images.contains_key(h as u64) => Some(images[h as u64]@),
            _ => None,
        },
    }
}

/// The virtual path of the icon with hash `hash`.
pub open spec fn icon_path(hash: u64) -> Seq<char> {
    "gpux-icon/"@ + decimal(hash as nat) + ".svg"@
}

impl AssetRegistry {
    pub fn new() -> (r: Self)
        ensures
            r.icons@ == Map::<u64, String>::empty(),
            r.optimized_images@ == Map::<u64, Vec<u8>>::empty(),
    {
        AssetRegistry { icons: HashMap::new(), optimized_images: HashMap::new() }
    }

    /// Registers `svg` under `hash` unless an icon is registered there.
    pub fn register_icon(&mut self, hash: u64, svg: String)
        ensures
            final(self).icons@ == if old(self).icons@.contains_key(hash) {
                old(self).icons@
            } else {
                old(self).icons@.insert(hash, svg)
            },
            final(self).optimized_images@ == old(self).optimized_images@,
    {
        broadcast use vstd::std_specs::hash::group_hash_axioms;

        if !self.icons.contains_key(&hash) {
            self.icons.insert(hash, svg);
        }
    }

    /// Registers optimized image bytes under `hash`.
    pub fn register_optimized_image(&mut self, hash: u64, bytes: Vec<u8>)
        ensures
            final(self).optimized_images@ == old(self).optimized_images@.insert(hash, bytes),
            final(self).icons@ == old(self).icons@,
    {
        broadcast use vstd::std_specs::hash::group_hash_axioms;

        self.optimized_images.insert(hash, bytes);
    }

    /// Loads a virtual path from the registries (`None`: not a registered
    /// virtual path, to be loaded by the wrapped asset source).
    pub fn load(&self, path: &str) -> (r: Option<Vec<u8>>)
        ensures
            match r {
                Some(b) => registry_load(self.icons@, self.optimized_images@, path@) == Some(b@),
                None => registry_load(self.icons@, self.optimized_images@, path@) is None,
            },
    {
        broadcast use vstd::std_specs::hash::group_hash_axioms;

        let p = chars_of(path);
        if let Some(h) = icon_key_of(&p) {
            if let Some(svg) = self.icons.get(&h) {
                let bytes = svg.as_str().as_bytes();
                return Some(slice_to_vec(bytes));
            }
        }
        if let Some(h) = optimized_key_of(&p) {
            if let Some(img) = self.optimized_images.get(&h) {
                return Some(img.clone());
            }
        }
        None
    }
}

/// The virtual path under which the icon with hash `hash` is served.
pub fn icon_virtual_path(hash: u64) -> (r: String)
    ensures
        r@ == icon_path(hash),
{
    let mut s = String::from_str("gpux-icon/");
    let digits = u64_to_decimal(hash);
    s.append(digits.as_str());
    s.append(".svg");
    s
}

/// An icon's virtual path names its hash.
pub proof fn lemma_icon_path_key(hash: u64)
    ensures
        icon_key(icon_path(hash)) == Some(hash as nat),
{
    reveal_strlit("gpux-icon/");
    reveal_strlit(".svg");
    let pre = "gpux-icon/"@;
    let suf = ".svg"@;
    let d = decimal(hash as nat);
    lemma_decimal_parses(hash as nat, u64::MAX as nat);
    let path = icon_path(hash);
    assert(path.take(pre.len() as int) =~= pre);
    assert(path.skip(pre.len() as int) =~= d + suf);
    let ds = d + suf;
    assert(ds[0] == d[0]);
    if has_prefix(ds, pre) {
        assert(ds.take(pre.len() as int)[0] == ds[0]);
    }
    assert(trim_start_all(ds, pre) == ds);
    assert(trim_start_all(path, pre) == ds);
    assert(ds.skip(ds.len() - suf.len()) =~= suf);
    assert(ds.take(ds.len() - suf.len()) =~= d);
    lemma_last_is_digit(hash as nat);
    if has_suffix(d, suf) {
        assert(d.skip(d.len() - suf.len()).last() == d.last());
    }
    assert(trim_end_all(d, suf) == d);
    assert(trim_end_all(ds, suf) == d);
}

proof fn lemma_last_is_digit(n: nat)
    ensures
        decimal(n).len() > 0,
        is_digit(decimal(n).last()),
    decreases n,
{
    if n >= 10 {
        lemma_last_is_digit(n / 10);
    }
}

/// What a registered icon's path loads is its SVG text: after registering
/// `svg` under a fresh `hash`, loading the icon's virtual path yields the
/// UTF-8 bytes of `svg`.
pub proof fn lemma_register_then_load(
    icons: Map<u64, String>,
    images: Map<u64, Vec<u8>>,
    hash: u64,
    svg: String,
)
    requires
        !icons.contains_key(hash),
    ensures
        registry_load(icons.insert(hash, svg), images, icon_path(hash)) == Some(encode_utf8(svg@)),
{
    lemma_icon_path_key(hash);
}

} // verus!
