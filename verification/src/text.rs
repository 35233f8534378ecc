//! Character-level helpers shared by the components.

use vstd::prelude::*;

verus! {

/// Appends one character to a `String` (`String::push`).
///
/// Trusted: `String::push` appends `c` at the end of the string, as its
/// documentation states.
#[verifier::external_body]
pub(crate) fn push_char(s: &mut String, c: char)
    ensures
        final(s)@ == old(s)@.push(c),
{
    s.push(c);
}

/// The characters of `s`, in order.
pub fn chars_of(s: &str) -> (out: Vec<char>)
    ensures
        out@ == s@,
{
    let mut out: Vec<char> = Vec::new();
    for c in it: s.chars()
        invariant
            out@ == it.seq().take(it.index() as int),
    {
        out.push(c);
    }
    out
}

/// The string made of the characters `cs`, in order.
pub fn string_of(cs: &[char]) -> (out: String)
    ensures
        out@ == cs@,
{
    let mut out = String::new();
    let mut i: usize = 0;
    while i < cs.len()
        invariant
            i <= cs@.len(),
            out@ == cs@.take(i as int),
        decreases cs@.len() - i,
    {
        push_char(&mut out, cs[i]);
        assert(cs@.take(i as int + 1) =~= cs@.take(i as int).push(cs@[i as int]));
        i += 1;
    }
    assert(cs@.take(cs@.len() as int) =~= cs@);
    out
}

/// A class list with `more` added after `classes`, separated by a space
/// when both are non-empty.
pub open spec fn joined_classes(classes: Seq<char>, more: Seq<char>) -> Seq<char> {
    if classes.len() == 0 {
        more
    } else if more.len() == 0 {
        classes
    } else {
        classes + seq![' '] + more
    }
}

/// Appends the class list `more` to `classes`.
pub fn append_classes(classes: &str, more: &str) -> (r: String)
    ensures
        r@ == joined_classes(classes@, more@),
{
    let mut cs = chars_of(classes);
    let ms = chars_of(more);
    if cs.len() == 0 {
        return string_of(&ms);
    }
    if ms.len() == 0 {
        return string_of(&cs);
    }
    cs.push(' ');
    extend_from_range(&mut cs, &ms, 0, ms.len());
    assert(ms@.subrange(0, ms@.len() as int) =~= ms@);
    assert(cs@ =~= classes@ + seq![' '] + more@);
    string_of(&cs)
}

/// `s` with the characters in `[start, end)` replaced by `ins`.
pub open spec fn splice(s: Seq<char>, start: int, end: int, ins: Seq<char>) -> Seq<char> {
    s.subrange(0, start) + ins + s.subrange(end, s.len() as int)
}

/// Appends `src[from..to]` to `dst`.
pub fn extend_from_range(dst: &mut Vec<char>, src: &[char], from: usize, to: usize)
    requires
        from <= to <= src@.len(),
    ensures
        final(dst)@ == old(dst)@ + src@.subrange(from as int, to as int),
{
    let mut i = from;
    while i < to
        invariant
            from <= i <= to <= src@.len(),
            dst@ == old(dst)@ + src@.subrange(from as int, i as int),
        decreases to - i,
    {
        dst.push(src[i]);
        assert(src@.subrange(from as int, i + 1) =~= src@.subrange(from as int, i as int).push(
            src@[i as int],
        ));
        i += 1;
    }
}

/// A new vector holding `s` with `[start, end)` replaced by `ins`.
pub fn splice_chars(s: &[char], start: usize, end: usize, ins: &[char]) -> (out: Vec<char>)
    requires
        start <= end <= s@.len(),
    ensures
        out@ == splice(s@, start as int, end as int, ins@),
{
    let mut out: Vec<char> = Vec::new();
    extend_from_range(&mut out, s, 0, start);
    extend_from_range(&mut out, ins, 0, ins.len());
    extend_from_range(&mut out, s, end, s.len());
    assert(ins@.subrange(0, ins@.len() as int) =~= ins@);
    assert(out@ =~= splice(s@, start as int, end as int, ins@));
    out
}

/// A new vector holding `s[from..to]`.
pub fn slice_chars(s: &[char], from: usize, to: usize) -> (out: Vec<char>)
    requires
        from <= to <= s@.len(),
    ensures
        out@ == s@.subrange(from as int, to as int),
{
    let mut out: Vec<char> = Vec::new();
    extend_from_range(&mut out, s, from, to);
    assert(out@ =~= s@.subrange(from as int, to as int));
    out
}

/// `p` is a prefix of `s`.
pub open spec fn has_prefix(s: Seq<char>, p: Seq<char>) -> bool {
    p.len() <= s.len() && s.take(p.len() as int) == p
}

/// `p` is a suffix of `s`.
pub open spec fn has_suffix(s: Seq<char>, p: Seq<char>) -> bool {
    p.len() <= s.len() && s.skip(s.len() - p.len()) == p
}

/// `i` is the first position of `c` in `s`.
pub open spec fn is_first_index(s: Seq<char>, c: char, i: int) -> bool {
    0 <= i < s.len() && s[i] == c && forall|j: int| 0 <= j < i ==> s[j] != c
}

/// The first position of `c` in `s`, if any.
pub open spec fn find_char(s: Seq<char>, c: char) -> Option<int> {
    if exists|i: int| 0 <= i < s.len() && s[i] == c {
        Some(choose|i: int| is_first_index(s, c, i))
    } else {
        None
    }
}

pub proof fn lemma_find_char(s: Seq<char>, c: char, i: int)
    requires
        is_first_index(s, c, i),
    ensures
        find_char(s, c) == Some(i),
{
    assert(exists|k: int| 0 <= k < s.len() && s[k] == c);
    let k = choose|k: int| is_first_index(s, c, k);
    assert(is_first_index(s, c, i));
    if k < i {
        assert(s[k] != c);
    } else if k > i {
        assert(s[i] != c);
    }
}

/// Whether `s[start..]` begins with `p`.
pub fn matches_at(s: &[char], start: usize, p: &[char]) -> (r: bool)
    ensures
        r == (start <= s@.len() && has_prefix(s@.skip(start as int), p@)),
{
    if start > s.len() || p.len() > s.len() - start {
        return false;
    }
    let mut i: usize = 0;
    while i < p.len()
        invariant
            start + p@.len() <= s@.len() <= usize::MAX,
            i <= p@.len(),
            forall|j: int| 0 <= j < i ==> s@[start + j] == p@[j],
        decreases p@.len() - i,
    {
        if s[start + i] != p[i] {
            assert(s@.skip(start as int).take(p@.len() as int)[i as int] != p@[i as int]);
            return false;
        }
        i += 1;
    }
    assert(s@.skip(start as int).take(p@.len() as int) =~= p@);
    true
}

/// Whether `s` begins with the literal `lit`.
pub fn starts_with_str(s: &[char], lit: &str) -> (r: bool)
    ensures
        r == has_prefix(s@, lit@),
{
    let p = chars_of(lit);
    assert(s@.skip(0) =~= s@);
    matches_at(s, 0, &p)
}

/// Whether `s` ends with the literal `lit`.
pub fn ends_with_str(s: &[char], lit: &str) -> (r: bool)
    ensures
        r == has_suffix(s@, lit@),
{
    let p = chars_of(lit);
    if p.len() > s.len() {
        return false;
    }
    let r = matches_at(s, s.len() - p.len(), &p);
    assert(s@.skip(s@.len() - p@.len()).take(p@.len() as int) =~= s@.skip(s@.len() - p@.len()));
    r
}

/// Whether `s` is exactly the literal `lit`.
pub fn eq_str(s: &[char], lit: &str) -> (r: bool)
    ensures
        r == (s@ == lit@),
{
    let p = chars_of(lit);
    if p.len() != s.len() {
        return false;
    }
    let r = matches_at(s, 0, &p);
    assert(s@.skip(0) =~= s@);
    assert(s@.take(s@.len() as int) =~= s@);
    r
}

/// The first position of `c` in `s`.
pub fn position_of(s: &[char], c: char) -> (r: Option<usize>)
    ensures
        match r {
            Some(i) => find_char(s@, c) == Some(i as int) && is_first_index(s@, c, i as int),
            None => find_char(s@, c) is None,
        },
{
    let mut i: usize = 0;
    while i < s.len()
        invariant
            i <= s@.len(),
            forall|j: int| 0 <= j < i ==> s@[j] != c,
        decreases s@.len() - i,
    {
        if s[i] == c {
            proof {
                lemma_find_char(s@, c, i as int);
            }
            return Some(i);
        }
        i += 1;
    }
    None
}

/// Whether two character sequences are equal.
pub fn eq_chars(a: &[char], b: &[char]) -> (r: bool)
    ensures
        r == (a@ == b@),
{
    if a.len() != b.len() {
        return false;
    }
    let r = matches_at(a, 0, b);
    assert(a@.skip(0) =~= a@);
    assert(a@.take(a@.len() as int) =~= a@);
    r
}

/// `p` occurs in `s` starting at `i`.
pub open spec fn occurs_at(s: Seq<char>, p: Seq<char>, i: int) -> bool {
    0 <= i <= s.len() && has_prefix(s.skip(i), p)
}

/// `p` occurs somewhere in `s`.
pub open spec fn contains_seq(s: Seq<char>, p: Seq<char>) -> bool {
    exists|i: int| occurs_at(s, p, i)
}

/// Whether the literal `lit` occurs in `s`.
pub fn contains_str(s: &[char], lit: &str) -> (r: bool)
    ensures
        r == contains_seq(s@, lit@),
{
    let p = chars_of(lit);
    let n = s.len();
    let mut i: usize = 0;
    while i < n
        invariant
            i <= n == s@.len(),
            p@ == lit@,
            forall|j: int| 0 <= j < i ==> !occurs_at(s@, p@, j),
        decreases n - i,
    {
        if matches_at(s, i, &p) {
            assert(occurs_at(s@, p@, i as int));
            return true;
        }
        i += 1;
    }
    if matches_at(s, n, &p) {
        assert(occurs_at(s@, p@, n as int));
        return true;
    }
    assert forall|j: int| !occurs_at(s@, p@, j) by {
        if 0 <= j < n {
            assert(j < i);
        }
    }
    false
}

/// `i` is the first position where `p` occurs in `s`.
pub open spec fn is_first_occurrence(s: Seq<char>, p: Seq<char>, i: int) -> bool {
    occurs_at(s, p, i) && forall|j: int| 0 <= j < i ==> !occurs_at(s, p, j)
}

/// The first position where `p` occurs in `s`, if any.
pub open spec fn find_seq(s: Seq<char>, p: Seq<char>) -> Option<int> {
    if contains_seq(s, p) {
        Some(choose|i: int| is_first_occurrence(s, p, i))
    } else {
        None
    }
}

/// The first position where the literal `lit` occurs in `s`.
pub fn find_str(s: &[char], lit: &str) -> (r: Option<usize>)
    ensures
        match r {
            Some(i) => find_seq(s@, lit@) == Some(i as int) && is_first_occurrence(s@, lit@, i as int),
            None => find_seq(s@, lit@) is None,
        },
{
    let p = chars_of(lit);
    let n = s.len();
    let mut i: usize = 0;
    while i <= n
        invariant
            i <= n + 1,
            n == s@.len(),
            p@ == lit@,
            forall|j: int| 0 <= j < i ==> !occurs_at(s@, p@, j),
        decreases n + 1 - i,
    {
        if matches_at(s, i, &p) {
            proof {
                assert(is_first_occurrence(s@, p@, i as int));
                let k = choose|k: int| is_first_occurrence(s@, p@, k);
                if k < i {
                } else if k > i {
                    assert(!occurs_at(s@, p@, i as int));
                }
            }
            return Some(i);
        }
        if i == n {
            assert forall|j: int| !occurs_at(s@, p@, j) by {
                if 0 <= j <= n {
                    assert(j <= i);
                }
            }
            return None;
        }
        i += 1;
    }
    None
}

/// The Unicode `White_Space` characters, as `char::is_whitespace` tests.
pub open spec fn is_white_space(c: char) -> bool {
    ||| ('\u{9}' <= c && c <= '\u{d}')
    ||| c == ' '
    ||| c == '\u{85}'
    ||| c == '\u{a0}'
    ||| c == '\u{1680}'
    ||| ('\u{2000}' <= c && c <= '\u{200a}')
    ||| c == '\u{2028}'
    ||| c == '\u{2029}'
    ||| c == '\u{202f}'
    ||| c == '\u{205f}'
    ||| c == '\u{3000}'
}

pub fn is_white_space_char(c: char) -> (r: bool)
    ensures
        r == is_white_space(c),
{
    ('\u{9}' <= c && c <= '\u{d}') || c == ' ' || c == '\u{85}' || c == '\u{a0}' || c == '\u{1680}'
        || ('\u{2000}' <= c && c <= '\u{200a}') || c == '\u{2028}' || c == '\u{2029}'
        || c == '\u{202f}' || c == '\u{205f}' || c == '\u{3000}'
}

/// Splitting `s` at white space: the finished words and the word being read.
pub open spec fn words_scan(s: Seq<char>) -> (Seq<Seq<char>>, Seq<char>)
    decreases s.len(),
{
    if s.len() == 0 {
        (Seq::empty(), Seq::empty())
    } else {
        let (done, cur) = words_scan(s.drop_last());
        let c = s.last();
        if is_white_space(c) {
            if cur.len() > 0 { (done.push(cur), Seq::empty()) } else { (done, Seq::empty()) }
        } else {
            (done, cur.push(c))
        }
    }
}

/// The non-empty white-space-separated words of `s`, in order
/// (`str::split_whitespace`).
pub open spec fn words(s: Seq<char>) -> Seq<Seq<char>> {
    let (done, cur) = words_scan(s);
    if cur.len() > 0 { done.push(cur) } else { done }
}

/// The words of `s`.
pub fn split_words(s: &str) -> (r: Vec<Vec<char>>)
    ensures
        r@.len() == words(s@).len(),
        forall|k: int| 0 <= k < r@.len() ==> #[trigger] r@[k]@ == words(s@)[k],
{
    let cs = chars_of(s);
    let mut done: Vec<Vec<char>> = Vec::new();
    let mut cur: Vec<char> = Vec::new();
    let mut i: usize = 0;
    while i < cs.len()
        invariant
            i <= cs@.len(),
            cs@ == s@,
            done@.len() == words_scan(cs@.take(i as int)).0.len(),
            forall|k: int| 0 <= k < done@.len() ==> #[trigger] done@[k]@ == words_scan(cs@.take(i as int)).0[k],
            cur@ == words_scan(cs@.take(i as int)).1,
        decreases cs@.len() - i,
    {
        let c = cs[i];
        assert(cs@.take(i + 1).drop_last() =~= cs@.take(i as int));
        if is_white_space_char(c) {
            if cur.len() > 0 {
                let w = cur;
                done.push(w);
                cur = Vec::new();
            } else {
                cur = Vec::new();
            }
        } else {
            cur.push(c);
        }
        i += 1;
    }
    assert(cs@.take(cs@.len() as int) =~= cs@);
    if cur.len() > 0 {
        done.push(cur);
    }
    done
}

/// `s` without its leading characters satisfying `f`.
pub open spec fn trim_start_by(s: Seq<char>, f: spec_fn(char) -> bool) -> Seq<char>
    decreases s.len(),
{
    if s.len() > 0 && f(s[0]) { trim_start_by(s.skip(1), f) } else { s }
}

/// `s` without its trailing characters satisfying `f`.
pub open spec fn trim_end_by(s: Seq<char>, f: spec_fn(char) -> bool) -> Seq<char>
    decreases s.len(),
{
    if s.len() > 0 && f(s.last()) { trim_end_by(s.drop_last(), f) } else { s }
}

/// The range `[lo, hi)` of `s` left after trimming white space on the
/// right (`str::trim_end`).
pub fn trim_end_white_space(s: &[char]) -> (r: usize)
    ensures
        r <= s@.len(),
        s@.take(r as int) == trim_end_by(s@, white_space_pred()),
{
    let mut n = s.len();
    assert(s@.take(n as int) =~= s@);
    while n > 0 && is_white_space_char(s[n - 1])
        invariant
            n <= s@.len(),
            trim_end_by(s@, white_space_pred()) == trim_end_by(s@.take(n as int), white_space_pred()),
        decreases n,
    {
        assert(s@.take(n as int).drop_last() =~= s@.take(n - 1));
        n -= 1;
    }
    proof {
        if n > 0 {
            assert(s@.take(n as int).last() == s@[n - 1]);
        }
    }
    n
}

/// The white-space test as a predicate.
pub open spec fn white_space_pred() -> spec_fn(char) -> bool {
    |c: char| is_white_space(c)
}

/// The test for `q` as a predicate.
pub open spec fn char_pred(q: char) -> spec_fn(char) -> bool {
    |c: char| c == q
}

/// `s` with leading and trailing white space removed (`str::trim`).
pub open spec fn trim_white_space(s: Seq<char>) -> Seq<char> {
    trim_end_by(trim_start_by(s, white_space_pred()), white_space_pred())
}

/// `s` with leading and trailing `q` removed (`str::trim_matches(q)`).
pub open spec fn trim_char(s: Seq<char>, q: char) -> Seq<char> {
    trim_end_by(trim_start_by(s, char_pred(q)), char_pred(q))
}

fn trimmed(c: char, white: bool, q: char) -> (r: bool)
    ensures
        r == (if white { is_white_space(c) } else { c == q }),
{
    if white { is_white_space_char(c) } else { c == q }
}

/// Trims characters satisfying `white` (white space) or equal to `q`
/// (when `white` is false) from both ends of `s`.
fn trim_both(s: &[char], white: bool, q: char) -> (r: Vec<char>)
    ensures
        white ==> r@ == trim_white_space(s@),
        !white ==> r@ == trim_char(s@, q),
{
    let ghost f = if white { white_space_pred() } else { char_pred(q) };
    let n = s.len();
    let mut lo: usize = 0;
    assert(s@.skip(0) =~= s@);
    while lo < n && trimmed(s[lo], white, q)
        invariant
            lo <= n == s@.len(),
            f == (if white { white_space_pred() } else { char_pred(q) }),
            trim_start_by(s@, f) == trim_start_by(s@.skip(lo as int), f),
        decreases n - lo,
    {
        assert(s@.skip(lo as int)[0] == s@[lo as int]);
        assert(s@.skip(lo as int).skip(1) =~= s@.skip(lo + 1));
        lo += 1;
    }
    proof {
        if lo < n {
            assert(s@.skip(lo as int)[0] == s@[lo as int]);
        }
    }
    let t = slice_chars(s, lo, n);
    assert(t@ == trim_start_by(s@, f));
    let mut hi = t.len();
    assert(t@.take(hi as int) =~= t@);
    while hi > 0 && trimmed(t[hi - 1], white, q)
        invariant
            hi <= t@.len(),
            f == (if white { white_space_pred() } else { char_pred(q) }),
            trim_end_by(t@, f) == trim_end_by(t@.take(hi as int), f),
        decreases hi,
    {
        assert(t@.take(hi as int).drop_last() =~= t@.take(hi - 1));
        hi -= 1;
    }
    proof {
        if hi > 0 {
            assert(t@.take(hi as int).last() == t@[hi - 1]);
        }
    }
    let r = slice_chars(&t, 0, hi);
    assert(r@ == t@.take(hi as int));
    r
}

/// `str::trim`.
pub fn trim_chars(s: &[char]) -> (r: Vec<char>)
    ensures
        r@ == trim_white_space(s@),
{
    trim_both(s, true, ' ')
}

/// `str::trim_matches(q)` for a single character.
pub fn trim_char_chars(s: &[char], q: char) -> (r: Vec<char>)
    ensures
        r@ == trim_char(s@, q),
{
    trim_both(s, false, q)
}

} // verus!
