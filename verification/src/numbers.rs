//! Recognisers for the numeric forms that appear in class names and asset
//! paths: unsigned integers in a radix, and the textual form of a floating
//! point number.

use vstd::prelude::*;
use crate::text::chars_of;

verus! {

pub open spec fn is_digit(c: char) -> bool {
    '0' <= c && c <= '9'
}

/// The value of `c` as a digit in `radix` (2..=36), if it is one.
pub open spec fn digit_value(c: char, radix: nat) -> Option<nat> {
    let v: int = if '0' <= c && c <= '9' {
        c as int - '0' as int
    } else if 'a' <= c && c <= 'z' {
        c as int - 'a' as int + 10
    } else if 'A' <= c && c <= 'Z' {
        c as int - 'A' as int + 10
    } else {
        -1
    };
    if 0 <= v < radix { Some(v as nat) } else { None }
}

pub open spec fn all_radix_digits(s: Seq<char>, radix: nat) -> bool {
    forall|i: int| 0 <= i < s.len() ==> digit_value(#[trigger] s[i], radix) is Some
}

/// The value of a string of digits in `radix`.
pub open spec fn digits_value(s: Seq<char>, radix: nat) -> nat
    decreases s.len(),
{
    if s.len() == 0 {
        0
    } else {
        digits_value(s.drop_last(), radix) * radix + match digit_value(s.last(), radix) {
            Some(d) => d,
            None => 0,
        }
    }
}

/// An unsigned integer in `radix` as `str::parse`/`from_str_radix` read it:
/// an optional `+`, then at least one digit, with a value of at most `max`.
pub open spec fn parse_unsigned(s: Seq<char>, radix: nat, max: nat) -> Option<nat> {
    let d = if s.len() > 0 && s[0] == '+' { s.skip(1) } else { s };
    if d.len() > 0 && all_radix_digits(d, radix) && digits_value(d, radix) <= max {
        Some(digits_value(d, radix))
    } else {
        None
    }
}

proof fn lemma_digits_value_prefix(s: Seq<char>, radix: nat, k: int)
    requires
        radix >= 1,
        0 <= k <= s.len(),
    ensures
        digits_value(s.take(k), radix) <= digits_value(s, radix),
    decreases s.len(),
{
    if k < s.len() {
        lemma_digits_value_prefix(s.drop_last(), radix, k);
        assert(s.drop_last().take(k) =~= s.take(k));
        let v = digits_value(s.drop_last(), radix);
        assert(v * radix >= v) by (nonlinear_arith)
            requires radix >= 1;
    } else {
        assert(s.take(k) =~= s);
    }
}

fn digit_of(c: char, radix: u32) -> (r: Option<u32>)
    requires
        2 <= radix <= 36,
    ensures
        match r {
            Some(v) => digit_value(c, radix as nat) == Some(v as nat),
            None => digit_value(c, radix as nat) is None,
        },
{
    let v: u32 = if '0' <= c && c <= '9' {
        (c as u32) - ('0' as u32)
    } else if 'a' <= c && c <= 'z' {
        (c as u32) - ('a' as u32) + 10
    } else if 'A' <= c && c <= 'Z' {
        (c as u32) - ('A' as u32) + 10
    } else {
        return None;
    };
    if v < radix { Some(v) } else { None }
}

/// Parse an unsigned integer in `radix` whose value must not exceed `max`.
pub fn parse_unsigned_chars(s: &[char], radix: u32, max: u64) -> (r: Option<u64>)
    requires
        2 <= radix <= 36,
    ensures
        match r {
            Some(v) => parse_unsigned(s@, radix as nat, max as nat) == Some(v as nat),
            None => parse_unsigned(s@, radix as nat, max as nat) is None,
        },
{
    let start: usize = if s.len() > 0 && s[0] == '+' { 1 } else { 0 };
    let ghost d = if s@.len() > 0 && s@[0] == '+' { s@.skip(1) } else { s@ };
    assert(d =~= s@.skip(start as int));
    if start >= s.len() {
        return None;
    }
    let mut acc: u64 = 0;
    let mut i: usize = start;
    while i < s.len()
        invariant
            start <= i <= s@.len(),
            d == s@.skip(start as int),
            d == (if s@.len() > 0 && s@[0] == '+' { s@.skip(1) } else { s@ }),
            2 <= radix <= 36,
            acc as nat == digits_value(d.take(i - start), radix as nat),
            acc <= max,
            all_radix_digits(d.take(i - start), radix as nat),
        decreases s@.len() - i,
    {
        let dv = match digit_of(s[i], radix) {
            Some(v) => v,
            None => {
                assert(d[i - start] == s@[i as int]);
                assert(digit_value(d[i - start], radix as nat) is None);
                assert(!all_radix_digits(d, radix as nat));
                return None;
            },
        };
        let ghost k = i - start;
        assert(d.take(k + 1).drop_last() =~= d.take(k));
        assert(d.take(k + 1).last() == s@[i as int]);
        assert((acc as u128) * (radix as u128) <= 0xffff_ffff_ffff_ffff_u128 * 36) by (nonlinear_arith)
            requires acc <= u64::MAX, radix <= 36;
        let bound: u128 = (acc as u128) * (radix as u128) + (dv as u128);
        assert(bound == acc * radix + dv);
        if bound > max as u128 {
            proof {
                lemma_digits_value_prefix(d, radix as nat, k + 1);
            }
            return None;
        }
        acc = bound as u64;
        assert(all_radix_digits(d.take(k + 1), radix as nat)) by {
            assert forall|j: int| 0 <= j < d.take(k + 1).len() implies digit_value(#[trigger] d.take(k + 1)[j], radix as nat) is Some by {
                if j < k {
                    assert(d.take(k + 1)[j] == d.take(k)[j]);
                }
            }
        }
        i += 1;
    }
    assert(d.take(i - start) =~= d);
    Some(acc)
}

pub open spec fn all_digits(s: Seq<char>) -> bool {
    forall|i: int| 0 <= i < s.len() ==> is_digit(#[trigger] s[i])
}

pub open spec fn is_sign(c: char) -> bool {
    c == '+' || c == '-'
}

/// `s` without one leading sign.
pub open spec fn strip_sign(s: Seq<char>) -> Seq<char> {
    if s.len() > 0 && is_sign(s[0]) { s.skip(1) } else { s }
}

/// `Digit+ | Digit+ '.' Digit* | Digit* '.' Digit+`
pub open spec fn is_decimal_text(m: Seq<char>) -> bool {
    ||| m.len() > 0 && all_digits(m)
    ||| exists|d: int| 0 <= d < m.len() && #[trigger] m[d] == '.' && m.len() >= 2
        && all_digits(m.take(d)) && all_digits(m.skip(d + 1))
}

/// `Sign? Digit+`, what follows the exponent marker.
pub open spec fn is_exponent_text(x: Seq<char>) -> bool {
    strip_sign(x).len() > 0 && all_digits(strip_sign(x))
}

pub open spec fn is_exp_marker(c: char) -> bool {
    c == 'e' || c == 'E'
}

/// `Decimal ('e' Sign? Digit+)?`
pub open spec fn is_number_text(s: Seq<char>) -> bool {
    ||| is_decimal_text(s)
    ||| exists|e: int| 0 <= e < s.len() && is_exp_marker(#[trigger] s[e])
        && is_decimal_text(s.take(e)) && is_exponent_text(s.skip(e + 1))
}

/// The code of `c` lower-cased in the ASCII range.
pub open spec fn ascii_lower(c: char) -> u32 {
    if 'A' <= c && c <= 'Z' { (c as u32 + 32) as u32 } else { c as u32 }
}

/// `s` equals the lower-case word `w` ignoring ASCII case.
pub open spec fn eq_ignore_case(s: Seq<char>, w: Seq<char>) -> bool {
    s.len() == w.len() && forall|i: int| 0 <= i < s.len() ==> ascii_lower(#[trigger] s[i]) == w[i] as u32
}

/// The grammar of `f32::from_str`: an optional sign followed by `inf`,
/// `infinity`, `nan` (in any case) or a decimal number with an optional
/// exponent.
pub open spec fn is_float_text(s: Seq<char>) -> bool {
    let b = strip_sign(s);
    ||| eq_ignore_case(b, "inf"@)
    ||| eq_ignore_case(b, "infinity"@)
    ||| eq_ignore_case(b, "nan"@)
    ||| is_number_text(b)
}

proof fn lemma_decimal_chars(m: Seq<char>)
    requires
        is_decimal_text(m),
    ensures
        forall|i: int| 0 <= i < m.len() ==> is_digit(#[trigger] m[i]) || m[i] == '.',
{
    if !(m.len() > 0 && all_digits(m)) {
        let d = choose|d: int| 0 <= d < m.len() && #[trigger] m[d] == '.' && m.len() >= 2
            && all_digits(m.take(d)) && all_digits(m.skip(d + 1));
        assert forall|i: int| 0 <= i < m.len() implies is_digit(#[trigger] m[i]) || m[i] == '.' by {
            if i < d {
                assert(m.take(d)[i] == m[i]);
            } else if i > d {
                assert(m.skip(d + 1)[i - d - 1] == m[i]);
            }
        }
    }
}

fn is_digit_char(c: char) -> (r: bool)
    ensures
        r == is_digit(c),
{
    '0' <= c && c <= '9'
}

/// Whether `m` is a decimal number without exponent.
fn is_decimal_chars(m: &[char]) -> (r: bool)
    ensures
        r == is_decimal_text(m@),
{
    let mut dot: Option<usize> = None;
    let mut i: usize = 0;
    while i < m.len()
        invariant
            i <= m@.len(),
            match dot {
                Some(d) => d < i && m@[d as int] == '.' && forall|j: int| 0 <= j < i && j != d ==> is_digit(#[trigger] m@[j]),
                None => forall|j: int| 0 <= j < i ==> is_digit(#[trigger] m@[j]),
            },
        decreases m@.len() - i,
    {
        let c = m[i];
        if is_digit_char(c) {
        } else if c == '.' && dot.is_none() {
            dot = Some(i);
        } else {
            proof {
                assert(!all_digits(m@));
                assert forall|d: int| 0 <= d < m@.len() && #[trigger] m@[d] == '.' && m@.len() >= 2
                    implies !(all_digits(m@.take(d)) && all_digits(m@.skip(d + 1))) by {
                    if d < i {
                        if c == '.' {
                            assert(m@.skip(d + 1)[i - d - 1] == m@[i as int]);
                        } else {
                            assert(m@.skip(d + 1)[i - d - 1] == m@[i as int]);
                        }
                    } else if d > i {
                        assert(m@.take(d)[i as int] == m@[i as int]);
                    } else {
                        let d0 = dot->0;
                        assert(m@.take(d)[d0 as int] == m@[d0 as int]);
                    }
                }
            }
            return false;
        }
        i += 1;
    }
    match dot {
        None => {
            assert(all_digits(m@));
            if m.len() > 0 {
                true
            } else {
                false
            }
        },
        Some(d) => {
            if m.len() >= 2 {
                assert(all_digits(m@.take(d as int))) by {
                    assert forall|j: int| 0 <= j < d implies is_digit(#[trigger] m@.take(d as int)[j]) by {
                        assert(m@.take(d as int)[j] == m@[j]);
                    }
                }
                assert(all_digits(m@.skip(d + 1))) by {
                    assert forall|j: int| 0 <= j < m@.len() - d - 1 implies is_digit(#[trigger] m@.skip(d + 1)[j]) by {
                        assert(m@.skip(d + 1)[j] == m@[d + 1 + j]);
                    }
                }
                true
            } else {
                assert(!all_digits(m@));
                false
            }
        },
    }
}

fn strip_sign_chars(s: &[char]) -> (r: Vec<char>)
    ensures
        r@ == strip_sign(s@),
{
    if s.len() > 0 && (s[0] == '+' || s[0] == '-') {
        crate::text::slice_chars(s, 1, s.len())
    } else {
        crate::text::slice_chars(s, 0, s.len())
    }
}

fn all_digit_chars(s: &[char]) -> (r: bool)
    ensures
        r == all_digits(s@),
{
    let mut i: usize = 0;
    while i < s.len()
        invariant
            i <= s@.len(),
            forall|j: int| 0 <= j < i ==> is_digit(#[trigger] s@[j]),
        decreases s@.len() - i,
    {
        if !is_digit_char(s[i]) {
            return false;
        }
        i += 1;
    }
    true
}

fn is_number_chars(s: &[char]) -> (r: bool)
    ensures
        r == is_number_text(s@),
{
    let mut i: usize = 0;
    while i < s.len()
        invariant
            i <= s@.len(),
            forall|j: int| 0 <= j < i ==> !is_exp_marker(#[trigger] s@[j]),
        decreases s@.len() - i,
    {
        if s[i] == 'e' || s[i] == 'E' {
            let mant = crate::text::slice_chars(s, 0, i);
            let rest = crate::text::slice_chars(s, i + 1, s.len());
            let exp = strip_sign_chars(&rest);
            let ok = is_decimal_chars(&mant) && exp.len() > 0 && all_digit_chars(&exp);
            proof {
                assert(mant@ =~= s@.take(i as int));
                assert(rest@ =~= s@.skip(i + 1));
                if is_decimal_text(s@) {
                    lemma_decimal_chars(s@);
                    assert(!(is_digit(s@[i as int]) || s@[i as int] == '.'));
                }
                assert forall|e: int| 0 <= e < s@.len() && is_exp_marker(#[trigger] s@[e])
                    && is_decimal_text(s@.take(e)) implies e == i by {
                    if e > i {
                        lemma_decimal_chars(s@.take(e));
                        assert(s@.take(e)[i as int] == s@[i as int]);
                    }
                }
            }
            return ok;
        }
        i += 1;
    }
    is_decimal_chars(s)
}

fn eq_ignore_case_chars(s: &[char], w: &str) -> (r: bool)
    ensures
        r == eq_ignore_case(s@, w@),
{
    let wc = chars_of(w);
    if wc.len() != s.len() {
        return false;
    }
    let mut i: usize = 0;
    while i < s.len()
        invariant
            i <= s@.len(),
            wc@ == w@,
            wc@.len() == s@.len(),
            forall|j: int| 0 <= j < i ==> ascii_lower(#[trigger] s@[j]) == w@[j] as u32,
        decreases s@.len() - i,
    {
        let c = s[i];
        let l: u32 = if 'A' <= c && c <= 'Z' { (c as u32) + 32 } else { c as u32 };
        assert(l == ascii_lower(c));
        if l != wc[i] as u32 {
            return false;
        }
        i += 1;
    }
    true
}

/// Whether `s` is accepted by `f32::from_str`.
pub fn is_float_chars(s: &[char]) -> (r: bool)
    ensures
        r == is_float_text(s@),
{
    let b = strip_sign_chars(s);
    eq_ignore_case_chars(&b, "inf") || eq_ignore_case_chars(&b, "infinity")
        || eq_ignore_case_chars(&b, "nan") || is_number_chars(&b)
}

/// The character of decimal digit `d` (< 10).
pub open spec fn digit_char(d: nat) -> char {
    if d == 0 { '0' } else if d == 1 { '1' } else if d == 2 { '2' } else if d == 3 { '3' }
    else if d == 4 { '4' } else if d == 5 { '5' } else if d == 6 { '6' } else if d == 7 { '7' }
    else if d == 8 { '8' } else { '9' }
}

fn digit_char_of(d: u64) -> (c: char)
    requires
        d < 10,
    ensures
        c == digit_char(d as nat),
{
    if d == 0 { '0' } else if d == 1 { '1' } else if d == 2 { '2' } else if d == 3 { '3' }
    else if d == 4 { '4' } else if d == 5 { '5' } else if d == 6 { '6' } else if d == 7 { '7' }
    else if d == 8 { '8' } else { '9' }
}

/// The decimal digits of `n`, without leading zeros (`"0"` for zero).
pub open spec fn decimal(n: nat) -> Seq<char>
    decreases n,
{
    if n < 10 {
        seq![digit_char(n)]
    } else {
        decimal(n / 10).push(digit_char(n % 10))
    }
}

/// Decimal digits read back give the number: `n.to_string().parse()` is `n`.
pub proof fn lemma_decimal_parses(n: nat, max: nat)
    requires
        n <= max,
    ensures
        parse_unsigned(decimal(n), 10, max) == Some(n),
        decimal(n).len() > 0,
        is_digit(decimal(n)[0]),
    decreases n,
{
    lemma_decimal_value(n);
}

proof fn lemma_decimal_value(n: nat)
    ensures
        decimal(n).len() > 0,
        is_digit(decimal(n)[0]),
        all_radix_digits(decimal(n), 10),
        digits_value(decimal(n), 10) == n,
    decreases n,
{
    if n < 10 {
        let s = decimal(n);
        assert(s.drop_last() =~= Seq::<char>::empty());
        assert(digit_value(digit_char(n), 10) == Some(n));
        assert(digits_value(s.drop_last(), 10) == 0);
        assert(digits_value(s, 10) == digits_value(s.drop_last(), 10) * 10 + n);
    } else {
        lemma_decimal_value(n / 10);
        let s = decimal(n);
        let p = decimal(n / 10);
        assert(s.drop_last() =~= p);
        assert(digit_value(digit_char(n % 10), 10) == Some(n % 10));
        assert(s[0] == p[0]);
        assert forall|i: int| 0 <= i < s.len() implies digit_value(#[trigger] s[i], 10) is Some by {
            if i < p.len() {
                assert(s[i] == p[i]);
            }
        }
        assert(digits_value(s, 10) == digits_value(p, 10) * 10 + n % 10);
        assert((n / 10) * 10 + n % 10 == n) by (nonlinear_arith);
    }
}

/// The decimal text of `n` (`n.to_string()`).
pub fn u64_to_decimal(n: u64) -> (r: String)
    ensures
        r@ == decimal(n as nat),
{
    let mut rev: Vec<char> = Vec::new();
    let mut m: u64 = n;
    assert(rev@.reverse() =~= Seq::<char>::empty());
    assert(decimal(n as nat) =~= decimal(m as nat) + rev@.reverse());
    while m >= 10
        invariant
            decimal(n as nat) == decimal(m as nat) + rev@.reverse(),
        decreases m,
    {
        let c = digit_char_of(m % 10);
        proof {
            assert(decimal(m as nat) == decimal((m / 10) as nat).push(c));
            assert(rev@.push(c).reverse() =~= seq![c] + rev@.reverse());
            assert(decimal(m as nat) + rev@.reverse() =~= decimal((m / 10) as nat) + rev@.push(c).reverse());
        }
        rev.push(c);
        m = m / 10;
    }
    let c = digit_char_of(m);
    proof {
        assert(decimal(m as nat) == seq![c]);
        assert(rev@.push(c).reverse() =~= seq![c] + rev@.reverse());
    }
    rev.push(c);
    let mut out: Vec<char> = Vec::new();
    let mut i: usize = rev.len();
    while i > 0
        invariant
            i <= rev@.len(),
            out@ == rev@.subrange(i as int, rev@.len() as int).reverse(),
        decreases i,
    {
        i -= 1;
        out.push(rev[i]);
        assert(rev@.subrange(i as int, rev@.len() as int).reverse() =~= rev@.subrange(i + 1, rev@.len() as int).reverse().push(rev@[i as int]));
    }
    assert(rev@.subrange(0, rev@.len() as int) =~= rev@);
    crate::text::string_of(&out)
}

} // verus!
