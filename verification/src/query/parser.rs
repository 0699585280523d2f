//! Recursive-descent parser from tokens to the syntax tree.
use vstd::prelude::*;
use crate::dates::{date_ms, parse_date_ms};
use crate::error::{ErrorView, MinistoreError};
use crate::query::ast::{
    expr_view, CmpOp, Expr, KeywordPatternKind, Predicate, RelUnit, SExpr, SPred,
};
use crate::query::lexer::{lex, lex_spec, toks_view, SpecTok, Tok};
use crate::text::{
    chars_of, concat, concat3, debug_quote, debug_str, is_alphabetic, is_ascii_digit, is_digit_spec, alphabetic_spec,
    lowercase_text, str_eq, string_of_range, to_lowercase,
};

verus! {

// ---------------------------------------------------------------------------
// Words and numbers inside a term
// ---------------------------------------------------------------------------

/// Number of occurrences of `c` in `s`.
pub open spec fn count_char(s: Seq<char>, c: char) -> nat
    decreases s.len(),
{
    if s.len() == 0 {
        0
    } else {
        count_char(s.drop_last(), c) + if s.last() == c { 1nat } else { 0nat }
    }
}

/// How a keyword pattern uses the wildcards `*` and `?`.
pub open spec fn classify_spec(s: Seq<char>) -> KeywordPatternKind {
    if !s.contains('*') && !s.contains('?') {
        KeywordPatternKind::Exact
    } else if s.contains('?') {
        KeywordPatternKind::Glob
    } else if s.len() > 0 && s.last() == '*' && s[0] != '*' && count_char(s, '*') == 1 {
        KeywordPatternKind::Prefix
    } else if s.len() > 0 && s[0] == '*' && s.last() == '*' && count_char(s, '*') == 2 {
        KeywordPatternKind::Contains
    } else {
        KeywordPatternKind::Glob
    }
}

/// The value of a run of decimal digits.
pub open spec fn digits_value(d: Seq<char>) -> nat
    decreases d.len(),
{
    if d.len() == 0 {
        0
    } else {
        digits_value(d.drop_last()) * 10 + ((d.last() as nat) - ('0' as nat)) as nat
    }
}

pub open spec fn all_digits(d: Seq<char>) -> bool {
    forall|i: int| 0 <= i < d.len() ==> is_digit_spec(#[trigger] d[i])
}

/// `i64::from_str` of std: an optional sign followed by at least one decimal digit,
/// and a value that fits.
pub open spec fn parse_i64_spec(s: Seq<char>) -> Option<i64> {
    let neg = s.len() > 0 && s[0] == '-';
    let d = if s.len() > 0 && (s[0] == '-' || s[0] == '+') { s.drop_first() } else { s };
    if d.len() == 0 || !all_digits(d) {
        None
    } else {
        let v: int = if neg { -(digits_value(d) as int) } else { digits_value(d) as int };
        if i64::MIN <= v <= i64::MAX {
            Some(v as i64)
        } else {
            None
        }
    }
}

/// Index of the first alphabetic character of `s` at or after `k`.
pub open spec fn first_alpha(s: Seq<char>, k: int) -> Option<int>
    decreases s.len() - k,
{
    if k >= s.len() || k < 0 {
        None
    } else if alphabetic_spec(s[k]) {
        Some(k)
    } else {
        first_alpha(s, k + 1)
    }
}

/// The unit a relative duration is written in, given in lower case.
pub open spec fn unit_of(l: Seq<char>) -> Option<RelUnit> {
    if l == "h"@ || l == "hour"@ || l == "hours"@ {
        Some(RelUnit::H)
    } else if l == "d"@ || l == "day"@ || l == "days"@ {
        Some(RelUnit::D)
    } else if l == "w"@ || l == "week"@ || l == "weeks"@ {
        Some(RelUnit::W)
    } else if l == "m"@ || l == "month"@ || l == "months"@ {
        Some(RelUnit::M)
    } else if l == "y"@ || l == "year"@ || l == "years"@ {
        Some(RelUnit::Y)
    } else {
        None
    }
}

/// A relative duration such as `7d` or `3weeks`: an integer, then a unit.
pub open spec fn rel_duration_spec(s: Seq<char>) -> Option<(i64, RelUnit)> {
    match first_alpha(s, 0) {
        None => None,
        Some(pos) => match parse_i64_spec(s.subrange(0, pos)) {
            None => None,
            Some(amount) => match unit_of(lowercase_text(s.subrange(pos, s.len() as int))) {
                Some(unit) => Some((amount, unit)),
                None => None,
            },
        },
    }
}

/// A date or date-time in the query, or the error that rejects it.
pub open spec fn query_date(s: Seq<char>) -> Result<i64, ErrorView> {
    match date_ms(s) {
        Some(ms) => Ok(ms),
        None => Err(ErrorView::QueryParse("invalid date format: "@ + s)),
    }
}

fn count_star(v: &Vec<char>) -> (n: usize)
    ensures
        n == count_char(v@, '*'),
{
    let mut n: usize = 0;
    let mut i: usize = 0;
    while i < v.len()
        invariant
            i <= v.len(),
            n == count_char(v@.take(i as int), '*'),
            n <= i,
        decreases v.len() - i,
    {
        assert(v@.take(i + 1).drop_last() == v@.take(i as int));
        if v[i] == '*' {
            n += 1;
        }
        i += 1;
    }
    assert(v@.take(v.len() as int) == v@);
    n
}

fn contains_char(v: &Vec<char>, c: char) -> (r: bool)
    ensures
        r == v@.contains(c),
{
    let mut i: usize = 0;
    while i < v.len()
        invariant
            i <= v.len(),
            forall|k: int| 0 <= k < i ==> v@[k] != c,
        decreases v.len() - i,
    {
        if v[i] == c {
            assert(v@[i as int] == c);
            return true;
        }
        i += 1;
    }
    false
}

/// Classifies a keyword pattern by its wildcards.
pub fn classify_keyword_pattern(s: &str) -> (k: KeywordPatternKind)
    ensures
        k == classify_spec(s@),
{
    let v = chars_of(s);
    let has_star = contains_char(&v, '*');
    let has_q = contains_char(&v, '?');
    if !has_star && !has_q {
        return KeywordPatternKind::Exact;
    }
    if has_q {
        return KeywordPatternKind::Glob;
    }
    let n = count_star(&v);
    let len = v.len();
    if len > 0 && v[len - 1] == '*' && v[0] != '*' && n == 1 {
        return KeywordPatternKind::Prefix;
    }
    if len > 0 && v[0] == '*' && v[len - 1] == '*' && n == 2 {
        return KeywordPatternKind::Contains;
    }
    KeywordPatternKind::Glob
}

proof fn lemma_digits_value_prefix(d: Seq<char>, k: int)
    requires
        0 <= k <= d.len(),
        all_digits(d),
    ensures
        digits_value(d.take(k)) <= digits_value(d),
    decreases d.len() - k,
{
    if k < d.len() {
        lemma_digits_value_prefix(d, k + 1);
        assert(d.take(k + 1).drop_last() == d.take(k));
        assert(is_digit_spec(d[k]));
    } else {
        assert(d.take(k) == d);
    }
}

/// `i64::from_str` applied to `v[from..to]`.
#[verifier::loop_isolation(false)]
pub fn parse_i64_range(v: &Vec<char>, from: usize, to: usize) -> (r: Option<i64>)
    requires
        from <= to <= v.len(),
    ensures
        r == parse_i64_spec(v@.subrange(from as int, to as int)),
{
    let ghost s = v@.subrange(from as int, to as int);
    if from == to {
        return None;
    }
    let neg = v[from] == '-';
    let start = if v[from] == '-' || v[from] == '+' { from + 1 } else { from };
    let ghost d = v@.subrange(start as int, to as int);
    assert(d == if s.len() > 0 && (s[0] == '-' || s[0] == '+') { s.drop_first() } else { s });
    if start == to {
        return None;
    }
    let mut m: u64 = 0;
    let mut overflow = false;
    let mut i: usize = start;
    while i < to
        invariant
            start <= i <= to <= v.len(),
            d == v@.subrange(start as int, to as int),
            forall|k: int| 0 <= k < i - start ==> is_digit_spec(#[trigger] d[k]),
            !overflow ==> m == digits_value(d.take(i - start)),
            overflow ==> digits_value(d.take(i - start)) > u64::MAX,
        decreases to - i,
    {
        let c = v[i];
        if !is_ascii_digit(c) {
            assert(!is_digit_spec(d[i - start]));
            return None;
        }
        let dig: u64 = (c as u32 - '0' as u32) as u64;
        assert(d.take(i - start + 1).drop_last() == d.take(i - start));
        assert(d.take(i - start + 1).last() == c);
        if !overflow {
            match m.checked_mul(10) {
                Some(m10) => match m10.checked_add(dig) {
                    Some(m2) => {
                        m = m2;
                    },
                    None => {
                        overflow = true;
                    },
                },
                None => {
                    overflow = true;
                },
            }
        } else {
            assert(digits_value(d.take(i - start + 1)) >= digits_value(d.take(i - start)));
        }
        i += 1;
    }
    assert(d.take(to - start) == d);
    assert(all_digits(d));
    if overflow {
        return None;
    }
    if neg {
        if m <= 9223372036854775807u64 {
            Some(-(m as i64))
        } else if m == 9223372036854775808u64 {
            Some(i64::MIN)
        } else {
            None
        }
    } else {
        if m <= 9223372036854775807u64 {
            Some(m as i64)
        } else {
            None
        }
    }
}

fn is_one_of(l: &str, a: &str, b: &str, c: &str) -> (r: bool)
    ensures
        r == (l@ == a@ || l@ == b@ || l@ == c@),
{
    str_eq(l, a) || str_eq(l, b) || str_eq(l, c)
}

fn unit_from(l: &str) -> (u: Option<RelUnit>)
    ensures
        u == unit_of(l@),
{
    if is_one_of(l, "h", "hour", "hours") {
        Some(RelUnit::H)
    } else if is_one_of(l, "d", "day", "days") {
        Some(RelUnit::D)
    } else if is_one_of(l, "w", "week", "weeks") {
        Some(RelUnit::W)
    } else if is_one_of(l, "m", "month", "months") {
        Some(RelUnit::M)
    } else if is_one_of(l, "y", "year", "years") {
        Some(RelUnit::Y)
    } else {
        None
    }
}

/// Reads a relative duration such as `7d`: an integer followed by a unit.
pub fn parse_relative_duration(s: &str) -> (r: Option<(i64, RelUnit)>)
    ensures
        r == rel_duration_spec(s@),
{
    let v = chars_of(s);
    let mut pos: usize = 0;
    while pos < v.len() && !is_alphabetic(v[pos])
        invariant
            pos <= v.len(),
            v@ == s@,
            first_alpha(v@, pos as int) == first_alpha(v@, 0),
        decreases v.len() - pos,
    {
        pos += 1;
    }
    if pos == v.len() {
        return None;
    }
    let amount = match parse_i64_range(&v, 0, pos) {
        Some(a) => a,
        None => return None,
    };
    let unit_part = string_of_range(&v, pos, v.len());
    let lower = to_lowercase(unit_part.as_str());
    match unit_from(lower.as_str()) {
        Some(unit) => Some((amount, unit)),
        None => None,
    }
}

/// Milliseconds since the epoch of a date in a query.
pub fn parse_date_to_epoch_ms(s: &str) -> (r: Result<i64, MinistoreError>)
    ensures
        match (r, query_date(s@)) {
            (Ok(a), Ok(b)) => a == b,
            (Err(e), Err(f)) => e@ == f,
            _ => false,
        },
{
    match parse_date_ms(s) {
        Some(ms) => Ok(ms),
        None => Err(MinistoreError::QueryParse(concat("invalid date format: ", s))),
    }
}

// ---------------------------------------------------------------------------
// The grammar
// ---------------------------------------------------------------------------

/// The token at `p`, if there is one.
pub open spec fn cur(t: Seq<SpecTok>, p: int) -> Option<SpecTok> {
    if 0 <= p < t.len() {
        Some(t[p])
    } else {
        None
    }
}

pub open spec fn expect_word(t: Seq<SpecTok>, p: int) -> Result<(Seq<char>, int), ErrorView> {
    match cur(t, p) {
        Some(SpecTok::Str(s)) => Ok((s, p + 1)),
        Some(SpecTok::Ident(s)) => Ok((s, p + 1)),
        _ => Err(ErrorView::QueryParse("expected string or identifier"@)),
    }
}

pub open spec fn expect_num(t: Seq<SpecTok>, p: int) -> Result<(Seq<char>, int), ErrorView> {
    match cur(t, p) {
        Some(SpecTok::Number(n)) => Ok((n, p + 1)),
        _ => Err(ErrorView::QueryParse("expected number"@)),
    }
}

pub open spec fn op_of(o: Option<SpecTok>) -> Option<CmpOp> {
    match o {
        Some(SpecTok::Gt) => Some(CmpOp::Gt),
        Some(SpecTok::Gte) => Some(CmpOp::Gte),
        Some(SpecTok::Lt) => Some(CmpOp::Lt),
        Some(SpecTok::Lte) => Some(CmpOp::Lte),
        Some(SpecTok::Eq) => Some(CmpOp::Eq),
        _ => None,
    }
}

/// `field:value`, with `p` just after the colon; `field:<op>value` is the
/// comparison `field<op>value`.
pub open spec fn p_field(t: Seq<SpecTok>, p: int, field: Seq<char>) -> Result<(SPred, int), ErrorView> {
    if field == "path"@ {
        match expect_word(t, p) {
            Ok((pattern, q)) => Ok((SPred::PathGlob { pattern }, q)),
            Err(e) => Err(e),
        }
    } else if op_of(cur(t, p)) is Some {
        p_comparison(t, p, field)
    } else {
        let word = match cur(t, p) {
            Some(SpecTok::Str(s)) => Some(s),
            Some(SpecTok::Ident(s)) => Some(s),
            _ => None,
        };
        match word {
            Some(value) => if cur(t, p + 1) == Some(SpecTok::DotDot) {
                match expect_word(t, p + 2) {
                    Ok((hi_s, q)) => match query_date(value) {
                        Ok(lo_ms) => match query_date(hi_s) {
                            Ok(hi_ms) => Ok((SPred::DateRangeAbs { field, lo_ms, hi_ms }, q)),
                            Err(e) => Err(e),
                        },
                        Err(e) => Err(e),
                    },
                    Err(e) => Err(e),
                }
            } else {
                Ok((SPred::Keyword { field, pattern: value, kind: classify_spec(value) }, p + 1))
            },
            None => match cur(t, p) {
                Some(SpecTok::Number(n)) => if cur(t, p + 1) == Some(SpecTok::DotDot) {
                    match expect_num(t, p + 2) {
                        Ok((hi, q)) => Ok((SPred::NumberRange { field, lo: n, hi }, q)),
                        Err(e) => Err(e),
                    }
                } else {
                    Ok((SPred::NumberCmp { field, op: CmpOp::Eq, value: n }, p + 1))
                },
                _ => Err(ErrorView::QueryParse("expected value after '"@ + field + ":'"@)),
            },
        }
    }
}

/// `field<op>value`, with `p` at the comparison operator.
pub open spec fn p_comparison(t: Seq<SpecTok>, p: int, field: Seq<char>) -> Result<(SPred, int), ErrorView> {
    match op_of(cur(t, p)) {
        None => Err(ErrorView::QueryParse("expected comparison operator"@)),
        Some(op) => match cur(t, p + 1) {
            Some(SpecTok::Number(n)) => Ok((SPred::NumberCmp { field, op, value: n }, p + 2)),
            Some(SpecTok::Str(s)) => p_date_cmp(field, op, s, p + 2),
            Some(SpecTok::Ident(s)) => p_date_cmp(field, op, s, p + 2),
            _ => Err(ErrorView::QueryParse("expected value after comparison operator"@)),
        },
    }
}

/// A comparison with a relative or absolute date.
pub open spec fn p_date_cmp(field: Seq<char>, op: CmpOp, s: Seq<char>, q: int) -> Result<(SPred, int), ErrorView> {
    match rel_duration_spec(s) {
        Some((amount, unit)) => Ok((SPred::DateCmpRel { field, op, amount, unit }, q)),
        None => match query_date(s) {
            Ok(epoch_ms) => Ok((SPred::DateCmpAbs { field, op, epoch_ms }, q)),
            Err(e) => Err(e),
        },
    }
}

/// One predicate starting at `p`.
pub open spec fn p_pred(t: Seq<SpecTok>, p: int) -> Result<(SPred, int), ErrorView> {
    let first = match cur(t, p) {
        Some(SpecTok::Ident(s)) => Some(s),
        Some(SpecTok::Str(s)) => Some(s),
        _ => None,
    };
    match first {
        None => Err(ErrorView::QueryParse("expected term"@)),
        Some(first) => {
            let p1 = p + 1;
            if cur(t, p1) == Some(SpecTok::Colon) {
                if first == "has"@ {
                    match expect_word(t, p1 + 1) {
                        Ok((field, q)) => Ok((SPred::Has { field }, q)),
                        Err(e) => Err(e),
                    }
                } else {
                    p_field(t, p1 + 1, first)
                }
            } else if op_of(cur(t, p1)) is Some {
                p_comparison(t, p1, first)
            } else if cur(t, p1) == Some(SpecTok::DotDot) {
                Err(ErrorView::QueryParse("range requires field:start..end notation"@))
            } else {
                Ok((SPred::Text { field: None, fts: first }, p1))
            }
        },
    }
}

/// Whether the token after `!ident` makes it a fielded predicate.
pub open spec fn is_fielded(o: Option<SpecTok>) -> bool {
    o == Some(SpecTok::Colon) || op_of(o) is Some
}

/// Whether a token begins another term (two adjacent terms are joined by AND).
pub open spec fn starts_term(o: Option<SpecTok>) -> bool {
    match o {
        Some(SpecTok::Ident(_)) => true,
        Some(SpecTok::Str(_)) => true,
        Some(SpecTok::LParen) => true,
        Some(SpecTok::Not) => true,
        _ => false,
    }
}

/// A token as `Debug` shows it (a number as it was written).
pub open spec fn tok_debug(t: SpecTok) -> Seq<char> {
    match t {
        SpecTok::Ident(s) => "Ident("@ + debug_str(s) + ")"@,
        SpecTok::Str(s) => "String("@ + debug_str(s) + ")"@,
        SpecTok::Number(n) => "Number("@ + n + ")"@,
        SpecTok::Colon => "Colon"@,
        SpecTok::And => "And"@,
        SpecTok::Or => "Or"@,
        SpecTok::Not => "Not"@,
        SpecTok::LParen => "LParen"@,
        SpecTok::RParen => "RParen"@,
        SpecTok::Gt => "Gt"@,
        SpecTok::Gte => "Gte"@,
        SpecTok::Lt => "Lt"@,
        SpecTok::Lte => "Lte"@,
        SpecTok::Eq => "Eq"@,
        SpecTok::DotDot => "DotDot"@,
    }
}

fn tok_debug_string(t: &Tok) -> (r: String)
    ensures
        r@ == tok_debug(t@),
{
    match t {
        Tok::Ident(s) => concat3("Ident(", debug_quote(s.as_str()).as_str(), ")"),
        Tok::String(s) => concat3("String(", debug_quote(s.as_str()).as_str(), ")"),
        Tok::Number(n) => concat3("Number(", n.as_str(), ")"),
        Tok::Colon => String::from_str("Colon"),
        Tok::And => String::from_str("And"),
        Tok::Or => String::from_str("Or"),
        Tok::Not => String::from_str("Not"),
        Tok::LParen => String::from_str("LParen"),
        Tok::RParen => String::from_str("RParen"),
        Tok::Gt => String::from_str("Gt"),
        Tok::Gte => String::from_str("Gte"),
        Tok::Lt => String::from_str("Lt"),
        Tok::Lte => String::from_str("Lte"),
        Tok::Eq => String::from_str("Eq"),
        Tok::DotDot => String::from_str("DotDot"),
    }
}

pub open spec fn rparen_message(o: Option<SpecTok>) -> Seq<char> {
    "expected RParen, got "@ + match o {
        None => "None"@,
        Some(t) => "Some("@ + tok_debug(t) + ")"@,
    }
}

pub open spec fn p_or(t: Seq<SpecTok>, p: int) -> Result<(SExpr, int), ErrorView>
    decreases t.len() - p, 3int,
{
    match p_and(t, p) {
        Ok((left, q)) => if p < q <= t.len() {
            p_or_rest(t, q, left)
        } else {
            Ok((left, q))
        },
        Err(e) => Err(e),
    }
}

pub open spec fn p_or_rest(t: Seq<SpecTok>, p: int, left: SExpr) -> Result<(SExpr, int), ErrorView>
    decreases t.len() - p, 4int,
{
    if cur(t, p) == Some(SpecTok::Or) {
        match p_and(t, p + 1) {
            Ok((right, q)) => if p < q <= t.len() {
                p_or_rest(t, q, SExpr::Or(Box::new(left), Box::new(right)))
            } else {
                Ok((SExpr::Or(Box::new(left), Box::new(right)), q))
            },
            Err(e) => Err(e),
        }
    } else {
        Ok((left, p))
    }
}

pub open spec fn p_and(t: Seq<SpecTok>, p: int) -> Result<(SExpr, int), ErrorView>
    decreases t.len() - p, 2int,
{
    match p_not(t, p) {
        Ok((left, q)) => if p < q <= t.len() {
            p_and_rest(t, q, left)
        } else {
            Ok((left, q))
        },
        Err(e) => Err(e),
    }
}

pub open spec fn p_and_rest(t: Seq<SpecTok>, p: int, left: SExpr) -> Result<(SExpr, int), ErrorView>
    decreases t.len() - p, 5int,
{
    if cur(t, p) == Some(SpecTok::And) || starts_term(cur(t, p)) {
        let start = if cur(t, p) == Some(SpecTok::And) { p + 1 } else { p };
        match p_not(t, start) {
            Ok((right, q)) => if p < q <= t.len() {
                p_and_rest(t, q, SExpr::And(Box::new(left), Box::new(right)))
            } else {
                Ok((SExpr::And(Box::new(left), Box::new(right)), q))
            },
            Err(e) => Err(e),
        }
    } else {
        Ok((left, p))
    }
}

pub open spec fn p_not(t: Seq<SpecTok>, p: int) -> Result<(SExpr, int), ErrorView>
    decreases t.len() - p, 1int,
{
    if cur(t, p) == Some(SpecTok::Not) {
        match cur(t, p + 1) {
            Some(SpecTok::Ident(f)) if !is_fielded(cur(t, p + 2)) => Ok(
                (SExpr::Pred(SPred::Bool { field: f, value: false }), p + 2),
            ),
            _ => match p_not(t, p + 1) {
                Ok((inner, q)) => Ok((SExpr::Not(Box::new(inner)), q)),
                Err(e) => Err(e),
            },
        }
    } else {
        p_primary(t, p)
    }
}

pub open spec fn p_primary(t: Seq<SpecTok>, p: int) -> Result<(SExpr, int), ErrorView>
    decreases t.len() - p, 0int,
{
    if cur(t, p) == Some(SpecTok::LParen) {
        match p_or(t, p + 1) {
            Ok((e, q)) => if cur(t, q) == Some(SpecTok::RParen) {
                Ok((e, q + 1))
            } else {
                Err(ErrorView::QueryParse(rparen_message(cur(t, q))))
            },
            Err(e) => Err(e),
        }
    } else {
        match p_pred(t, p) {
            Ok((pred, q)) => Ok((SExpr::Pred(pred), q)),
            Err(e) => Err(e),
        }
    }
}

/// The syntax tree of a query string, or the error that rejects it. A query is
/// read as far as it forms an expression.
pub open spec fn parse_spec(input: Seq<char>) -> Result<SExpr, ErrorView> {
    match lex_spec(input) {
        Ok(t) => match p_or(t, 0) {
            Ok((e, _)) => Ok(e),
            Err(e) => Err(e),
        },
        Err(e) => Err(e),
    }
}

pub open spec fn parse_result_view(r: Result<Expr, MinistoreError>) -> Result<SExpr, ErrorView> {
    match r {
        Ok(e) => Ok(expr_view(e)),
        Err(e) => Err(e@),
    }
}


// ---------------------------------------------------------------------------
// The parser
// ---------------------------------------------------------------------------

/// Parse a query string into a syntax tree.
pub fn parse_query(input: &str) -> (r: Result<Expr, MinistoreError>)
    ensures
        parse_result_view(r) == parse_spec(input@),
{
    let tokens = lex(input)?;
    let mut parser = Parser { tokens, pos: 0 };
    match parser.parse_or() {
        Ok(e) => Ok(e),
        Err(e) => Err(e),
    }
}

struct Parser {
    tokens: Vec<Tok>,
    pos: usize,
}

pub open spec fn expr_res(r: Result<Expr, MinistoreError>, pos: int) -> Result<(SExpr, int), ErrorView> {
    match r {
        Ok(e) => Ok((expr_view(e), pos)),
        Err(e) => Err(e@),
    }
}

pub open spec fn pred_res(r: Result<Predicate, MinistoreError>, pos: int) -> Result<(SPred, int), ErrorView> {
    match r {
        Ok(p) => Ok((p@, pos)),
        Err(e) => Err(e@),
    }
}

pub open spec fn word_res(r: Result<String, MinistoreError>, pos: int) -> Result<(Seq<char>, int), ErrorView> {
    match r {
        Ok(s) => Ok((s@, pos)),
        Err(e) => Err(e@),
    }
}

impl Parser {
    spec fn t(&self) -> Seq<SpecTok> {
        toks_view(self.tokens@)
    }

    fn at(&self, k: usize) -> (r: Option<&Tok>)
        ensures
            match r {
                Some(tok) => cur(self.t(), k as int) == Some(tok@),
                None => cur(self.t(), k as int) is None,
            },
    {
        if k < self.tokens.len() {
            Some(&self.tokens[k])
        } else {
            None
        }
    }

    fn is_tok(&self, k: usize, kind: &Tok) -> (r: bool)
        requires
            match kind {
                Tok::Ident(_) | Tok::String(_) | Tok::Number(_) => false,
                _ => true,
            },
        ensures
            r == (cur(self.t(), k as int) == Some(kind@)),
    {
        match self.at(k) {
            Some(tok) => match (tok, kind) {
                (Tok::Colon, Tok::Colon) => true,
                (Tok::And, Tok::And) => true,
                (Tok::Or, Tok::Or) => true,
                (Tok::Not, Tok::Not) => true,
                (Tok::LParen, Tok::LParen) => true,
                (Tok::RParen, Tok::RParen) => true,
                (Tok::Gt, Tok::Gt) => true,
                (Tok::Gte, Tok::Gte) => true,
                (Tok::Lt, Tok::Lt) => true,
                (Tok::Lte, Tok::Lte) => true,
                (Tok::Eq, Tok::Eq) => true,
                (Tok::DotDot, Tok::DotDot) => true,
                _ => false,
            },
            None => false,
        }
    }

    fn op_at(&self, k: usize) -> (r: Option<CmpOp>)
        ensures
            r == op_of(cur(self.t(), k as int)),
    {
        match self.at(k) {
            Some(Tok::Gt) => Some(CmpOp::Gt),
            Some(Tok::Gte) => Some(CmpOp::Gte),
            Some(Tok::Lt) => Some(CmpOp::Lt),
            Some(Tok::Lte) => Some(CmpOp::Lte),
            Some(Tok::Eq) => Some(CmpOp::Eq),
            _ => None,
        }
    }

    fn word_at(&self, k: usize) -> (r: Option<String>)
        ensures
            match r {
                Some(s) => cur(self.t(), k as int) == Some(SpecTok::Str(s@)) || cur(self.t(), k as int) == Some(SpecTok::Ident(s@)),
                None => !(cur(self.t(), k as int) matches Some(SpecTok::Str(_))) && !(cur(self.t(), k as int) matches Some(SpecTok::Ident(_))),
            },
    {
        match self.at(k) {
            Some(Tok::String(s)) => Some(s.clone()),
            Some(Tok::Ident(s)) => Some(s.clone()),
            _ => None,
        }
    }

    fn expect_string_or_ident(&mut self) -> (r: Result<String, MinistoreError>)
        requires
            old(self).pos <= old(self).tokens.len(),
        ensures
            final(self).tokens@ == old(self).tokens@,
            final(self).pos <= final(self).tokens.len(),
            r is Ok ==> final(self).pos == old(self).pos + 1,
            word_res(r, final(self).pos as int) == expect_word(old(self).t(), old(self).pos as int),
    {
        match self.word_at(self.pos) {
            Some(s) => {
                self.pos = self.pos + 1;
                Ok(s)
            },
            None => Err(MinistoreError::QueryParse(String::from_str("expected string or identifier"))),
        }
    }

    fn expect_number(&mut self) -> (r: Result<String, MinistoreError>)
        requires
            old(self).pos <= old(self).tokens.len(),
        ensures
            final(self).tokens@ == old(self).tokens@,
            final(self).pos <= final(self).tokens.len(),
            r is Ok ==> final(self).pos == old(self).pos + 1,
            word_res(r, final(self).pos as int) == expect_num(old(self).t(), old(self).pos as int),
    {
        match self.at(self.pos) {
            Some(Tok::Number(n)) => {
                let v = n.clone();
                self.pos = self.pos + 1;
                Ok(v)
            },
            _ => Err(MinistoreError::QueryParse(String::from_str("expected number"))),
        }
    }

    fn parse_field_predicate(&mut self, field: &String) -> (r: Result<Predicate, MinistoreError>)
        requires
            old(self).pos <= old(self).tokens.len(),
        ensures
            final(self).tokens@ == old(self).tokens@,
            final(self).pos <= final(self).tokens.len(),
            r is Ok ==> final(self).pos > old(self).pos,
            pred_res(r, final(self).pos as int) == p_field(old(self).t(), old(self).pos as int, field@),
    {
        if str_eq(field.as_str(), "path") {
            let pattern = self.expect_string_or_ident()?;
            return Ok(Predicate::PathGlob { pattern });
        }
        if self.op_at(self.pos).is_some() {
            return self.parse_comparison(field);
        }
        match self.word_at(self.pos) {
            Some(value) => {
                self.pos = self.pos + 1;
                if self.is_tok(self.pos, &Tok::DotDot) {
                    self.pos = self.pos + 1;
                    let hi_s = self.expect_string_or_ident()?;
                    let lo_ms = parse_date_to_epoch_ms(value.as_str())?;
                    let hi_ms = parse_date_to_epoch_ms(hi_s.as_str())?;
                    return Ok(Predicate::DateRangeAbs { field: field.clone(), lo_ms, hi_ms });
                }
                let kind = classify_keyword_pattern(value.as_str());
                Ok(Predicate::Keyword { field: field.clone(), pattern: value, kind })
            },
            None => {
                match self.at(self.pos) {
                    Some(Tok::Number(n)) => {
                        let lo = n.clone();
                        self.pos = self.pos + 1;
                        if self.is_tok(self.pos, &Tok::DotDot) {
                            self.pos = self.pos + 1;
                            let hi = self.expect_number()?;
                            Ok(Predicate::NumberRange { field: field.clone(), lo, hi })
                        } else {
                            Ok(Predicate::NumberCmp { field: field.clone(), op: CmpOp::Eq, value: lo })
                        }
                    },
                    _ => Err(MinistoreError::QueryParse(concat3("expected value after '", field.as_str(), ":'"))),
                }
            },
        }
    }

    fn parse_comparison(&mut self, field: &String) -> (r: Result<Predicate, MinistoreError>)
        requires
            old(self).pos <= old(self).tokens.len(),
        ensures
            final(self).tokens@ == old(self).tokens@,
            final(self).pos <= final(self).tokens.len(),
            r is Ok ==> final(self).pos > old(self).pos,
            pred_res(r, final(self).pos as int) == p_comparison(old(self).t(), old(self).pos as int, field@),
    {
        let op = match self.op_at(self.pos) {
            Some(op) => op,
            None => return Err(MinistoreError::QueryParse(String::from_str("expected comparison operator"))),
        };
        self.pos = self.pos + 1;
        if let Some(Tok::Number(n)) = self.at(self.pos) {
            let value = n.clone();
            self.pos = self.pos + 1;
            return Ok(Predicate::NumberCmp { field: field.clone(), op, value });
        }
        match self.word_at(self.pos) {
            Some(s) => {
                self.pos = self.pos + 1;
                if let Some((amount, unit)) = parse_relative_duration(s.as_str()) {
                    return Ok(Predicate::DateCmpRel { field: field.clone(), op, amount, unit });
                }
                let epoch_ms = parse_date_to_epoch_ms(s.as_str())?;
                Ok(Predicate::DateCmpAbs { field: field.clone(), op, epoch_ms })
            },
            None => Err(MinistoreError::QueryParse(String::from_str("expected value after comparison operator"))),
        }
    }

    fn parse_predicate(&mut self) -> (r: Result<Predicate, MinistoreError>)
        requires
            old(self).pos <= old(self).tokens.len(),
        ensures
            final(self).tokens@ == old(self).tokens@,
            final(self).pos <= final(self).tokens.len(),
            r is Ok ==> final(self).pos > old(self).pos,
            pred_res(r, final(self).pos as int) == p_pred(old(self).t(), old(self).pos as int),
    {
        let first = match self.at(self.pos) {
            Some(Tok::Ident(s)) => s.clone(),
            Some(Tok::String(s)) => s.clone(),
            _ => return Err(MinistoreError::QueryParse(String::from_str("expected term"))),
        };
        self.pos = self.pos + 1;
        if self.is_tok(self.pos, &Tok::Colon) {
            self.pos = self.pos + 1;
            if str_eq(first.as_str(), "has") {
                let f = self.expect_string_or_ident()?;
                return Ok(Predicate::Has { field: f });
            }
            return self.parse_field_predicate(&first);
        }
        if self.op_at(self.pos).is_some() {
            return self.parse_comparison(&first);
        }
        if self.is_tok(self.pos, &Tok::DotDot) {
            return Err(MinistoreError::QueryParse(String::from_str("range requires field:start..end notation")));
        }
        Ok(Predicate::Text { field: None, fts: first })
    }

    fn parse_or(&mut self) -> (r: Result<Expr, MinistoreError>)
        requires
            old(self).pos <= old(self).tokens.len(),
        ensures
            final(self).tokens@ == old(self).tokens@,
            final(self).pos <= final(self).tokens.len(),
            r is Ok ==> final(self).pos > old(self).pos,
            expr_res(r, final(self).pos as int) == p_or(old(self).t(), old(self).pos as int),
        decreases old(self).tokens@.len() - old(self).pos, 3int,
    {
        let ghost t = self.t();
        let ghost p0 = self.pos as int;
        let mut left = self.parse_and()?;
        assert(p_or(t, p0) == p_or_rest(t, self.pos as int, expr_view(left)));
        while self.is_tok(self.pos, &Tok::Or)
            invariant
                self.tokens@ == old(self).tokens@,
                t == old(self).t(),
                p0 == old(self).pos,
                self.t() == t,
                p0 < self.pos <= self.tokens.len(),
                p_or(t, p0) == p_or_rest(t, self.pos as int, expr_view(left)),
            decreases self.tokens.len() - self.pos,
        {
            let ghost p1 = self.pos as int;
            self.pos = self.pos + 1;
            let right = self.parse_and()?;
            left = Expr::Or(Box::new(left), Box::new(right));
        }
        Ok(left)
    }

    fn starts_term_at(&self, k: usize) -> (r: bool)
        ensures
            r == starts_term(cur(self.t(), k as int)),
    {
        match self.at(k) {
            Some(Tok::Ident(_)) => true,
            Some(Tok::String(_)) => true,
            Some(Tok::LParen) => true,
            Some(Tok::Not) => true,
            _ => false,
        }
    }

    fn parse_and(&mut self) -> (r: Result<Expr, MinistoreError>)
        requires
            old(self).pos <= old(self).tokens.len(),
        ensures
            final(self).tokens@ == old(self).tokens@,
            final(self).pos <= final(self).tokens.len(),
            r is Ok ==> final(self).pos > old(self).pos,
            expr_res(r, final(self).pos as int) == p_and(old(self).t(), old(self).pos as int),
        decreases old(self).tokens@.len() - old(self).pos, 2int,
    {
        let ghost t = self.t();
        let ghost p0 = self.pos as int;
        let mut left = self.parse_not()?;
        assert(p_and(t, p0) == p_and_rest(t, self.pos as int, expr_view(left)));
        loop
            invariant
                self.tokens@ == old(self).tokens@,
                t == old(self).t(),
                p0 == old(self).pos,
                self.t() == t,
                p0 < self.pos <= self.tokens.len(),
                p_and(t, p0) == p_and_rest(t, self.pos as int, expr_view(left)),
            decreases self.tokens.len() - self.pos,
        {
            if self.is_tok(self.pos, &Tok::And) {
                self.pos = self.pos + 1;
            } else if !self.starts_term_at(self.pos) {
                return Ok(left);
            }
            let right = self.parse_not()?;
            left = Expr::And(Box::new(left), Box::new(right));
        }
    }

    fn parse_not(&mut self) -> (r: Result<Expr, MinistoreError>)
        requires
            old(self).pos <= old(self).tokens.len(),
        ensures
            final(self).tokens@ == old(self).tokens@,
            final(self).pos <= final(self).tokens.len(),
            r is Ok ==> final(self).pos > old(self).pos,
            expr_res(r, final(self).pos as int) == p_not(old(self).t(), old(self).pos as int),
        decreases old(self).tokens@.len() - old(self).pos, 1int,
    {
        if self.is_tok(self.pos, &Tok::Not) {
            self.pos = self.pos + 1;
            if let Some(Tok::Ident(field)) = self.at(self.pos) {
                let field_name = field.clone();
                let fielded = self.is_tok(self.pos + 1, &Tok::Colon) || self.op_at(self.pos + 1).is_some();
                if !fielded {
                    self.pos = self.pos + 1;
                    return Ok(Expr::Pred(Predicate::Bool { field: field_name, value: false }));
                }
            }
            let inner = self.parse_not()?;
            Ok(Expr::Not(Box::new(inner)))
        } else {
            self.parse_primary()
        }
    }

    fn parse_primary(&mut self) -> (r: Result<Expr, MinistoreError>)
        requires
            old(self).pos <= old(self).tokens.len(),
        ensures
            final(self).tokens@ == old(self).tokens@,
            final(self).pos <= final(self).tokens.len(),
            r is Ok ==> final(self).pos > old(self).pos,
            expr_res(r, final(self).pos as int) == p_primary(old(self).t(), old(self).pos as int),
        decreases old(self).tokens@.len() - old(self).pos, 0int,
    {
        if self.is_tok(self.pos, &Tok::LParen) {
            self.pos = self.pos + 1;
            let expr = self.parse_or()?;
            if self.is_tok(self.pos, &Tok::RParen) {
                self.pos = self.pos + 1;
                return Ok(expr);
            }
            let found = match self.at(self.pos) {
                None => String::from_str("None"),
                Some(tok) => concat3("Some(", tok_debug_string(tok).as_str(), ")"),
            };
            return Err(MinistoreError::QueryParse(concat("expected RParen, got ", found.as_str())));
        }
        let p = self.parse_predicate()?;
        Ok(Expr::Pred(p))
    }
}

} // verus!
