//! The text forms of floating-point numbers that documents and queries may
//! hold. The library keeps such numbers as text; this module decides which
//! texts Rust's `f64` parser accepts.
use vstd::prelude::*;
use crate::text::{chars_of, is_ascii_digit, is_digit_spec};

verus! {

/// The number of ASCII digits `s` starts with.
pub open spec fn lead_digits(s: Seq<char>) -> nat
    decreases s.len(),
{
    if s.len() > 0 && is_digit_spec(s[0]) {
        1 + lead_digits(s.drop_first())
    } else {
        0
    }
}

/// `c` as an ASCII lower-case letter, other characters unchanged.
pub open spec fn ascii_lower(c: char) -> char {
    if 'A' <= c && c <= 'Z' {
        ((c as u32) + 32) as char
    } else {
        c
    }
}

/// `s` equals the lower-case word `w`, ignoring ASCII case.
pub open spec fn eq_ignore_case(s: Seq<char>, w: Seq<char>) -> bool {
    s.len() == w.len() && forall|i: int| 0 <= i < s.len() ==> ascii_lower(#[trigger] s[i]) == w[i]
}

/// An exponent: empty, or `e`/`E`, an optional sign and at least one digit.
pub open spec fn exponent_ok(r: Seq<char>) -> bool {
    r.len() == 0 || ((r[0] == 'e' || r[0] == 'E') && {
        let r2 = r.drop_first();
        let r3 = if r2.len() > 0 && (r2[0] == '+' || r2[0] == '-') { r2.drop_first() } else { r2 };
        r3.len() > 0 && lead_digits(r3) == r3.len()
    })
}

/// `Digit+ | Digit+ '.' Digit* | Digit* '.' Digit+`, then an exponent.
pub open spec fn decimal_ok(t: Seq<char>) -> bool {
    let a = lead_digits(t);
    if a < t.len() && t[a as int] == '.' {
        let after = t.skip(a + 1int);
        let b = lead_digits(after);
        (a > 0 || b > 0) && exponent_ok(after.skip(b as int))
    } else {
        a > 0 && exponent_ok(t.skip(a as int))
    }
}

/// The texts `str::parse::<f64>` accepts, as its documentation gives them: an
/// optional sign, then `inf`, `infinity`, `nan` (in any case) or a decimal
/// number with an optional exponent; no white space.
pub open spec fn float_syntax(s: Seq<char>) -> bool {
    let t = if s.len() > 0 && (s[0] == '+' || s[0] == '-') { s.drop_first() } else { s };
    eq_ignore_case(t, "inf"@) || eq_ignore_case(t, "infinity"@) || eq_ignore_case(t, "nan"@) || decimal_ok(t)
}

fn digits_from(v: &Vec<char>, from: usize) -> (n: usize)
    requires
        from <= v.len(),
    ensures
        from + n <= v.len(),
        n == lead_digits(v@.skip(from as int)),
{
    let mut i: usize = from;
    while i < v.len() && is_ascii_digit(v[i])
        invariant
            from <= i <= v.len(),
            lead_digits(v@.skip(from as int)) == (i - from) + lead_digits(v@.skip(i as int)),
        decreases v.len() - i,
    {
        assert(v@.skip(i as int).drop_first() == v@.skip(i + 1));
        i += 1;
    }
    i - from
}

fn lower_is(c: char, w: char) -> (r: bool)
    ensures
        r == (ascii_lower(c) == w),
{
    if 'A' <= c && c <= 'Z' {
        let u: u32 = (c as u32) + 32;
        proof {
            assert(((u as char) as u32) == u);
        }
        u == (w as u32)
    } else {
        c == w
    }
}

fn word_at(v: &Vec<char>, from: usize, w: &str) -> (r: bool)
    requires
        from <= v.len(),
    ensures
        r == eq_ignore_case(v@.skip(from as int), w@),
{
    let wv = chars_of(w);
    if v.len() - from != wv.len() {
        return false;
    }
    let mut i: usize = 0;
    while i < wv.len()
        invariant
            i <= wv.len(),
            wv@ == w@,
            v.len() - from == wv.len(),
            forall|k: int| 0 <= k < i ==> ascii_lower(#[trigger] v@.skip(from as int)[k]) == wv@[k],
        decreases wv.len() - i,
    {
        if !lower_is(v[from + i], wv[i]) {
            assert(v@.skip(from as int)[i as int] == v@[from + i]);
            return false;
        }
        assert(v@.skip(from as int)[i as int] == v@[from + i]);
        i += 1;
    }
    true
}

fn exponent_at(v: &Vec<char>, from: usize) -> (r: bool)
    requires
        from <= v.len(),
    ensures
        r == exponent_ok(v@.skip(from as int)),
{
    let ghost r1 = v@.skip(from as int);
    if from == v.len() {
        return true;
    }
    if v[from] != 'e' && v[from] != 'E' {
        return false;
    }
    let mut j = from + 1;
    assert(r1.drop_first() == v@.skip(j as int));
    if j < v.len() && (v[j] == '+' || v[j] == '-') {
        assert(v@.skip(j as int).drop_first() == v@.skip(j + 1));
        j += 1;
    }
    let n = digits_from(v, j);
    j < v.len() && n == v.len() - j
}

/// Whether `s` equals the lower-case word `w`, ignoring ASCII case.
pub fn eq_ignore_ascii_case(s: &str, w: &str) -> (r: bool)
    ensures
        r == eq_ignore_case(s@, w@),
{
    let v = chars_of(s);
    assert(v@.skip(0) == v@);
    word_at(&v, 0, w)
}

/// Whether `str::parse::<f64>` accepts `s`.
pub fn is_float_text(s: &str) -> (r: bool)
    ensures
        r == float_syntax(s@),
{
    let v = chars_of(s);
    let start: usize = if v.len() > 0 && (v[0] == '+' || v[0] == '-') { 1 } else { 0 };
    let ghost t = if s@.len() > 0 && (s@[0] == '+' || s@[0] == '-') { s@.drop_first() } else { s@ };
    assert(t == v@.skip(start as int));
    if word_at(&v, start, "inf") || word_at(&v, start, "infinity") || word_at(&v, start, "nan") {
        return true;
    }
    let a = digits_from(&v, start);
    let p = start + a;
    assert(t.skip(a as int) == v@.skip(p as int));
    if p < v.len() && v[p] == '.' {
        assert(t[a as int] == v@[p as int]);
        assert(t.skip(a + 1) == v@.skip(p + 1));
        let b = digits_from(&v, p + 1);
        assert(t.skip(a + 1).skip(b as int) == v@.skip(p + 1 + b));
        (a > 0 || b > 0) && exponent_at(&v, p + 1 + b)
    } else {
        a > 0 && exponent_at(&v, p)
    }
}

} // verus!
