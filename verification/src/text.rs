//! Character-level helpers shared by the query, schema and output modules.
use vstd::prelude::*;
use vstd::utf8::{encode_scalar, encode_utf8};

verus! {

/// `c.is_whitespace()`: the Unicode `White_Space` property of `c`, which
/// std documents as these 25 code points.
pub open spec fn spec_is_whitespace(c: char) -> bool {
    let n = c as u32;
    ||| 0x09 <= n <= 0x0D
    ||| n == 0x20
    ||| n == 0x85
    ||| n == 0xA0
    ||| n == 0x1680
    ||| 0x2000 <= n <= 0x200A
    ||| n == 0x2028
    ||| n == 0x2029
    ||| n == 0x202F
    ||| n == 0x205F
    ||| n == 0x3000
}

/// `c.is_alphabetic()`: the Unicode `Alphabetic` property of `c`.
pub uninterp spec fn spec_is_alphabetic(c: char) -> bool;

/// `c.is_alphanumeric()`: `Alphabetic` or `Numeric` in Unicode.
pub uninterp spec fn spec_is_alphanumeric(c: char) -> bool;

/// `str::to_uppercase`: the Unicode upper-case mapping of a whole string.
pub uninterp spec fn spec_to_uppercase(s: Seq<char>) -> Seq<char>;

/// `str::to_lowercase`: the Unicode lower-case mapping of a whole string.
pub uninterp spec fn spec_to_lowercase(s: Seq<char>) -> Seq<char>;

/// An ASCII letter.
pub open spec fn ascii_letter_spec(c: char) -> bool {
    ('a' <= c && c <= 'z') || ('A' <= c && c <= 'Z')
}

/// Whether every character of `s` is ASCII.
pub open spec fn all_ascii(s: Seq<char>) -> bool {
    forall|i: int| 0 <= i < s.len() ==> (#[trigger] s[i] as u32) < 128
}

/// The ASCII upper-case form of `c`; any other character stays.
pub open spec fn ascii_upper(c: char) -> char {
    if 'a' <= c && c <= 'z' {
        ((c as int) - 32) as char
    } else {
        c
    }
}

/// The ASCII lower-case form of `c`; any other character stays.
pub open spec fn ascii_lower(c: char) -> char {
    if 'A' <= c && c <= 'Z' {
        ((c as int) + 32) as char
    } else {
        c
    }
}

/// Whether `c` is alphabetic: for an ASCII character, whether it is a letter;
/// beyond ASCII, Unicode's `Alphabetic` property.
pub open spec fn alphabetic_spec(c: char) -> bool {
    if (c as u32) < 128 {
        ascii_letter_spec(c)
    } else {
        spec_is_alphabetic(c)
    }
}

/// Whether `c` is alphanumeric: for an ASCII character, whether it is a letter
/// or a digit; beyond ASCII, Unicode's `Alphabetic` or `Numeric`.
pub open spec fn alphanumeric_spec(c: char) -> bool {
    if (c as u32) < 128 {
        ascii_letter_spec(c) || ('0' <= c && c <= '9')
    } else {
        spec_is_alphanumeric(c)
    }
}

/// The upper case of a string: ASCII case mapping for an ASCII string, the
/// Unicode mapping otherwise.
pub open spec fn uppercase_text(s: Seq<char>) -> Seq<char> {
    if all_ascii(s) {
        s.map_values(|c: char| ascii_upper(c))
    } else {
        spec_to_uppercase(s)
    }
}

/// The lower case of a string: ASCII case mapping for an ASCII string, the
/// Unicode mapping otherwise.
pub open spec fn lowercase_text(s: Seq<char>) -> Seq<char> {
    if all_ascii(s) {
        s.map_values(|c: char| ascii_lower(c))
    } else {
        spec_to_lowercase(s)
    }
}

/// `char::is_whitespace`: whether `c` is one of the 25 White_Space code points.
pub(crate) fn is_whitespace(c: char) -> (r: bool)
    ensures
        r == spec_is_whitespace(c),
{
    let n = c as u32;
    (0x09 <= n && n <= 0x0D) || n == 0x20 || n == 0x85 || n == 0xA0 || n == 0x1680
        || (0x2000 <= n && n <= 0x200A) || n == 0x2028 || n == 0x2029 || n == 0x202F
        || n == 0x205F || n == 0x3000
}

/// Trusted: `char::is_alphabetic` of std; its result is named `spec_is_alphabetic`.
/// Of the ASCII characters, exactly the letters are alphabetic.
#[verifier::external_body]
pub(crate) fn is_alphabetic(c: char) -> (r: bool)
    ensures
        r == spec_is_alphabetic(c),
        (c as u32) < 128 ==> (r <==> ascii_letter_spec(c)),
{
    c.is_alphabetic()
}

/// Trusted: `char::is_alphanumeric` of std; its result is named `spec_is_alphanumeric`.
/// Its documentation defines it as `is_alphabetic() || is_numeric()`, so every
/// alphabetic character is alphanumeric. Of the ASCII characters, exactly
/// the letters and digits are alphanumeric.
#[verifier::external_body]
pub(crate) fn is_alphanumeric(c: char) -> (r: bool)
    ensures
        r == spec_is_alphanumeric(c),
        spec_is_alphabetic(c) ==> r,
        (c as u32) < 128 ==> (r <==> (ascii_letter_spec(c) || ('0' <= c && c <= '9'))),
{
    c.is_alphanumeric()
}

/// Trusted: `str::to_uppercase` of std; its result is named `spec_to_uppercase`.
/// An ASCII string maps character by character to its ASCII upper case.
#[verifier::external_body]
pub(crate) fn to_uppercase(s: &str) -> (r: String)
    ensures
        r@ == spec_to_uppercase(s@),
        all_ascii(s@) ==> r@ == s@.map_values(|c: char| ascii_upper(c)),
{
    s.to_uppercase()
}

/// Trusted: `str::to_lowercase` of std; its result is named `spec_to_lowercase`.
/// An ASCII string maps character by character to its ASCII lower case.
#[verifier::external_body]
pub(crate) fn to_lowercase(s: &str) -> (r: String)
    ensures
        r@ == spec_to_lowercase(s@),
        all_ascii(s@) ==> r@ == s@.map_values(|c: char| ascii_lower(c)),
{
    s.to_lowercase()
}

/// Trusted: `String::push` of std appends one character.
#[verifier::external_body]
pub(crate) fn push_char(s: &mut String, c: char)
    ensures
        final(s)@ == old(s)@.push(c),
{
    s.push(c);
}

/// How `{:?}` writes a string: quoted, with `"`, `\` and control characters
/// escaped.
pub uninterp spec fn debug_str(s: Seq<char>) -> Seq<char>;

/// Trusted: `format!("{:?}", s)` of std for a `&str`; the quoted text it writes
/// is named `debug_str`.
#[verifier::external_body]
pub(crate) fn debug_quote(s: &str) -> (r: String)
    ensures
        r@ == debug_str(s@),
{
    format!("{:?}", s)
}

/// `char::is_ascii_digit`.
pub open spec fn is_digit_spec(c: char) -> bool {
    '0' <= c && c <= '9'
}

pub fn is_ascii_digit(c: char) -> (r: bool)
    ensures
        r == is_digit_spec(c),
{
    '0' <= c && c <= '9'
}

/// The characters of a string slice, in order.
pub fn chars_of(s: &str) -> (v: Vec<char>)
    ensures
        v@ == s@,
{
    let mut v: Vec<char> = Vec::new();
    for c in it: s.chars()
        invariant
            v@ == it.seq().take(it.index() as int),
    {
        v.push(c);
    }
    v
}

/// A string made of the characters `v[from..to]`.
pub fn string_of_range(v: &Vec<char>, from: usize, to: usize) -> (s: String)
    requires
        from <= to <= v.len(),
    ensures
        s@ == v@.subrange(from as int, to as int),
{
    let mut s = String::new();
    let mut i: usize = from;
    while i < to
        invariant
            from <= i <= to <= v.len(),
            s@ == v@.subrange(from as int, i as int),
        decreases to - i,
    {
        push_char(&mut s, v[i]);
        assert(v@.subrange(from as int, i + 1) == v@.subrange(from as int, i as int).push(v@[i as int]));
        i += 1;
    }
    s
}

/// A string made of all characters of `v`.
pub fn string_of(v: &Vec<char>) -> (s: String)
    ensures
        s@ == v@,
{
    let s = string_of_range(v, 0, v.len());
    assert(v@.subrange(0, v.len() as int) == v@);
    s
}

/// `a` followed by `b`, as a new string.
pub fn concat(a: &str, b: &str) -> (s: String)
    ensures
        s@ == a@ + b@,
{
    let mut s = a.to_owned();
    s.append(b);
    s
}

/// `a`, `b` and `c` concatenated.
pub fn concat3(a: &str, b: &str, c: &str) -> (s: String)
    ensures
        s@ == a@ + b@ + c@,
{
    let mut s = a.to_owned();
    s.append(b);
    s.append(c);
    s
}

/// Equality of the characters of two strings.
pub fn str_eq(a: &str, b: &str) -> (r: bool)
    ensures
        r == (a@ == b@),
{
    let x = a.to_owned();
    let y = b.to_owned();
    x == y
}

/// The decimal digit character for `d < 10`.
pub open spec fn digit_char(d: nat) -> char {
    if d == 0 { '0' }
    else if d == 1 { '1' }
    else if d == 2 { '2' }
    else if d == 3 { '3' }
    else if d == 4 { '4' }
    else if d == 5 { '5' }
    else if d == 6 { '6' }
    else if d == 7 { '7' }
    else if d == 8 { '8' }
    else { '9' }
}

/// The decimal writing of a natural number, as `Display` prints it.
pub open spec fn nat_decimal(n: nat) -> Seq<char>
    decreases n,
{
    if n < 10 {
        seq![digit_char(n)]
    } else {
        nat_decimal(n / 10).push(digit_char(n % 10))
    }
}

/// The decimal writing of an integer, with a leading `-` when negative.
pub open spec fn int_decimal(i: int) -> Seq<char> {
    if i < 0 {
        seq!['-'] + nat_decimal((-i) as nat)
    } else {
        nat_decimal(i as nat)
    }
}

fn digit(d: u64) -> (c: char)
    requires
        d < 10,
    ensures
        c == digit_char(d as nat),
{
    if d == 0 { '0' }
    else if d == 1 { '1' }
    else if d == 2 { '2' }
    else if d == 3 { '3' }
    else if d == 4 { '4' }
    else if d == 5 { '5' }
    else if d == 6 { '6' }
    else if d == 7 { '7' }
    else if d == 8 { '8' }
    else { '9' }
}

/// `n.to_string()` for an unsigned 64-bit integer.
pub fn u64_decimal(n: u64) -> (s: String)
    ensures
        s@ == nat_decimal(n as nat),
    decreases n,
{
    if n < 10 {
        let mut s = String::new();
        push_char(&mut s, digit(n));
        s
    } else {
        let mut s = u64_decimal(n / 10);
        push_char(&mut s, digit(n % 10));
        s
    }
}

/// `n.to_string()` for a `u128`.
pub fn u128_decimal(n: u128) -> (s: String)
    ensures
        s@ == nat_decimal(n as nat),
    decreases n,
{
    if n < 10 {
        let mut s = String::new();
        push_char(&mut s, digit((n % 10) as u64));
        s
    } else {
        let mut s = u128_decimal(n / 10);
        push_char(&mut s, digit((n % 10) as u64));
        s
    }
}

/// `n.to_string()` for a `usize`.
pub fn usize_decimal(n: usize) -> (s: String)
    ensures
        s@ == nat_decimal(n as nat),
{
    u64_decimal(n as u64)
}

/// `i.to_string()` for a signed 64-bit integer.
pub fn i64_decimal(i: i64) -> (s: String)
    ensures
        s@ == int_decimal(i as int),
{
    if i < 0 {
        let m: u64 = if i == i64::MIN { 9223372036854775808u64 } else { (-i) as u64 };
        let digits = u64_decimal(m);
        let mut s = String::new();
        push_char(&mut s, '-');
        s.append(digits.as_str());
        s
    } else {
        u64_decimal(i as u64)
    }
}

/// Number of bytes of the UTF-8 encoding of `c`.
pub fn utf8_width(c: char) -> (w: usize)
    ensures
        w == encode_scalar(c as u32).len(),
{
    proof {
        vstd::utf8::char_is_scalar(c);
    }
    let v = c as u32;
    if v <= 0x7F {
        1
    } else if v <= 0x7FF {
        2
    } else if v <= 0xFFFF {
        3
    } else {
        4
    }
}

proof fn lemma_encode_step(s: Seq<char>, j: int, to: int)
    requires
        0 <= j < to <= s.len(),
    ensures
        encode_utf8(s.subrange(j, to)) == encode_scalar(s[j] as u32) + encode_utf8(s.subrange(j + 1, to)),
{
    assert(s.subrange(j, to).drop_first() == s.subrange(j + 1, to));
}

proof fn lemma_encode_monotone(s: Seq<char>, from: int, i: int, to: int)
    requires
        0 <= from <= i <= to <= s.len(),
    ensures
        encode_utf8(s.subrange(i, to)).len() <= encode_utf8(s.subrange(from, to)).len(),
    decreases i - from,
{
    if from < i {
        lemma_encode_step(s, from, to);
        lemma_encode_monotone(s, from + 1, i, to);
    }
}

/// Whether the UTF-8 encoding of `v[from..to]` is shorter than `k` bytes.
pub fn byte_len_below(v: &Vec<char>, from: usize, to: usize, k: usize) -> (r: bool)
    requires
        from <= to <= v.len(),
    ensures
        r == (encode_utf8(v@.subrange(from as int, to as int)).len() < k),
{
    if k == 0 {
        return false;
    }
    let mut sum: usize = 0;
    let mut i: usize = to;
    assert(encode_utf8(v@.subrange(to as int, to as int)) == Seq::<u8>::empty());
    while i > from
        invariant
            from <= i <= to <= v.len(),
            sum == encode_utf8(v@.subrange(i as int, to as int)).len(),
            sum < k,
        decreases i,
    {
        proof {
            lemma_encode_step(v@, i - 1, to as int);
        }
        let w = utf8_width(v[i - 1]);
        if w >= k - sum {
            proof {
                lemma_encode_monotone(v@, from as int, i - 1, to as int);
            }
            return false;
        }
        sum = sum + w;
        i = i - 1;
    }
    true
}

} // verus!
