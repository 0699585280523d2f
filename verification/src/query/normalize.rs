//! Query guardrails: every query needs a positive anchor, and wildcard patterns
//! need enough literal text.
use vstd::prelude::*;
use vstd::utf8::encode_utf8;
use crate::constants::{MIN_CONTAINS_LEN, MIN_PREFIX_LEN};
use crate::error::{ErrorView, MinistoreError};
use crate::query::ast::{expr_view, Expr, KeywordPatternKind, Predicate, SExpr, SPred};
use crate::text::{byte_len_below, chars_of, nat_decimal, string_of_range, usize_decimal};

verus! {

/// A pattern has a literal prefix when it does not begin with a wildcard.
pub open spec fn literal_prefix_spec(s: Seq<char>) -> bool {
    s.len() == 0 || (s[0] != '*' && s[0] != '?')
}

pub open spec fn is_wildcard(c: char) -> bool {
    c == '*' || c == '?'
}

pub open spec fn has_wildcard(s: Seq<char>) -> bool {
    s.contains('*') || s.contains('?')
}

/// Whether a predicate narrows the result set by itself.
pub open spec fn positive_pred(p: SPred) -> bool {
    match p {
        SPred::Text { .. } => true,
        SPred::Keyword { pattern, kind, .. } => match kind {
            KeywordPatternKind::Exact => true,
            _ => literal_prefix_spec(pattern),
        },
        SPred::PathGlob { pattern } => literal_prefix_spec(pattern),
        SPred::DateCmpAbs { .. } => true,
        SPred::DateRangeAbs { .. } => true,
        SPred::DateCmpRel { .. } => true,
        SPred::NumberCmp { .. } => true,
        SPred::NumberRange { .. } => true,
        SPred::Has { .. } => false,
        SPred::Bool { .. } => false,
    }
}

/// Whether some positive predicate stands outside every negation.
pub open spec fn positive_anchor(e: SExpr) -> bool
    decreases e,
{
    match e {
        SExpr::And(l, r) => positive_anchor(*l) || positive_anchor(*r),
        SExpr::Or(l, r) => positive_anchor(*l) || positive_anchor(*r),
        SExpr::Not(_) => false,
        SExpr::Pred(p) => positive_pred(p),
    }
}

/// `s` without its trailing `*` characters.
pub open spec fn trim_end_star(s: Seq<char>) -> Seq<char>
    decreases s.len(),
{
    if s.len() > 0 && s.last() == '*' {
        trim_end_star(s.drop_last())
    } else {
        s
    }
}

/// `s` without its leading `*` characters.
pub open spec fn trim_start_star(s: Seq<char>) -> Seq<char>
    decreases s.len(),
{
    if s.len() > 0 && s[0] == '*' {
        trim_start_star(s.drop_first())
    } else {
        s
    }
}

/// Index of the first wildcard of `s` at or after `k`.
pub open spec fn first_wildcard(s: Seq<char>, k: int) -> int
    decreases s.len() - k,
{
    if k >= s.len() || k < 0 {
        s.len() as int
    } else if is_wildcard(s[k]) {
        k
    } else {
        first_wildcard(s, k + 1)
    }
}

/// Length in bytes of the UTF-8 encoding of `s`.
pub open spec fn byte_len(s: Seq<char>) -> nat {
    encode_utf8(s).len()
}

/// The message of a pattern that is too short: `<what><text><closing> too short
/// (minimum <min> characters)`.
pub open spec fn too_short_msg(what: Seq<char>, text: Seq<char>, closing: Seq<char>, min: nat) -> Seq<char> {
    what + text + closing + " too short (minimum "@ + nat_decimal(min) + " characters)"@
}

/// The guardrail a predicate's pattern must pass.
pub open spec fn pattern_check(p: SPred) -> Result<(), ErrorView> {
    match p {
        SPred::Keyword { pattern, kind, .. } => match kind {
            KeywordPatternKind::Prefix => {
                let prefix = trim_end_star(pattern);
                if byte_len(prefix) < MIN_PREFIX_LEN {
                    Err(ErrorView::QueryRejected(too_short_msg("prefix pattern '"@, prefix, "*'"@, MIN_PREFIX_LEN as nat)))
                } else {
                    Ok(())
                }
            },
            KeywordPatternKind::Contains => {
                let inner = trim_start_star(trim_end_star(pattern));
                if byte_len(inner) < MIN_CONTAINS_LEN {
                    Err(ErrorView::QueryRejected(too_short_msg("contains pattern '*"@, inner, "*'"@, MIN_CONTAINS_LEN as nat)))
                } else {
                    Ok(())
                }
            },
            KeywordPatternKind::Glob => if has_wildcard(pattern) {
                let prefix = pattern.subrange(0, first_wildcard(pattern, 0));
                if prefix.len() == 0 {
                    Err(ErrorView::QueryRejected("glob pattern must have a literal prefix before wildcards"@))
                } else if byte_len(prefix) < MIN_PREFIX_LEN {
                    Err(ErrorView::QueryRejected(too_short_msg("glob prefix '"@, prefix, "'"@, MIN_PREFIX_LEN as nat)))
                } else {
                    Ok(())
                }
            } else {
                Ok(())
            },
            KeywordPatternKind::Exact => Ok(()),
        },
        SPred::PathGlob { pattern } => if has_wildcard(pattern) && !literal_prefix_spec(pattern) {
            Err(ErrorView::QueryRejected("path pattern must have literal prefix before wildcards"@))
        } else {
            Ok(())
        },
        _ => Ok(()),
    }
}

/// The first guardrail failure in the expression, left to right.
pub open spec fn patterns_check(e: SExpr) -> Result<(), ErrorView>
    decreases e,
{
    match e {
        SExpr::And(l, r) => match patterns_check(*l) {
            Ok(()) => patterns_check(*r),
            Err(x) => Err(x),
        },
        SExpr::Or(l, r) => match patterns_check(*l) {
            Ok(()) => patterns_check(*r),
            Err(x) => Err(x),
        },
        SExpr::Not(i) => patterns_check(*i),
        SExpr::Pred(p) => pattern_check(p),
    }
}

/// A query is accepted unchanged when it has a positive anchor and every pattern
/// passes its guardrail.
pub open spec fn normalize_spec(e: SExpr) -> Result<SExpr, ErrorView> {
    if !positive_anchor(e) {
        Err(ErrorView::QueryRejected(
            "query must have at least one positive anchor (FTS term, exact keyword match, or literal path prefix)"@,
        ))
    } else {
        match patterns_check(e) {
            Ok(()) => Ok(e),
            Err(x) => Err(x),
        }
    }
}

fn has_literal_prefix(pattern: &str) -> (r: bool)
    ensures
        r == literal_prefix_spec(pattern@),
{
    let v = chars_of(pattern);
    v.len() == 0 || (v[0] != '*' && v[0] != '?')
}

fn is_positive_anchor(pred: &Predicate) -> (r: bool)
    ensures
        r == positive_pred(pred@),
{
    match pred {
        Predicate::Text { .. } => true,
        Predicate::Keyword { kind, pattern, .. } => match kind {
            KeywordPatternKind::Exact => true,
            _ => has_literal_prefix(pattern.as_str()),
        },
        Predicate::PathGlob { pattern } => has_literal_prefix(pattern.as_str()),
        Predicate::DateCmpAbs { .. } => true,
        Predicate::DateRangeAbs { .. } => true,
        Predicate::DateCmpRel { .. } => true,
        Predicate::NumberCmp { .. } => true,
        Predicate::NumberRange { .. } => true,
        _ => false,
    }
}

/// Check if an expression has a positive anchor: an FTS term, a number or date
/// condition, a keyword pattern or path with a literal prefix, outside any `NOT`.
pub fn has_positive_anchor(expr: &Expr) -> (r: bool)
    ensures
        r == positive_anchor(expr_view(*expr)),
    decreases expr,
{
    match expr {
        Expr::And(left, right) => has_positive_anchor(left) || has_positive_anchor(right),
        Expr::Or(left, right) => has_positive_anchor(left) || has_positive_anchor(right),
        Expr::Not(_) => false,
        Expr::Pred(pred) => is_positive_anchor(pred),
    }
}

fn trimmed_end(v: &Vec<char>) -> (e: usize)
    ensures
        e <= v.len(),
        trim_end_star(v@) == v@.subrange(0, e as int),
{
    let mut e = v.len();
    assert(v@.subrange(0, e as int) == v@);
    while e > 0 && v[e - 1] == '*'
        invariant
            e <= v.len(),
            trim_end_star(v@) == trim_end_star(v@.subrange(0, e as int)),
        decreases e,
    {
        assert(v@.subrange(0, e as int).drop_last() == v@.subrange(0, e - 1));
        e -= 1;
    }
    e
}

fn trimmed_start(v: &Vec<char>, e: usize) -> (b: usize)
    requires
        e <= v.len(),
    ensures
        b <= e,
        trim_start_star(v@.subrange(0, e as int)) == v@.subrange(b as int, e as int),
{
    let mut b: usize = 0;
    assert(v@.subrange(0, e as int) == v@.subrange(b as int, e as int));
    while b < e && v[b] == '*'
        invariant
            b <= e <= v.len(),
            trim_start_star(v@.subrange(0, e as int)) == trim_start_star(v@.subrange(b as int, e as int)),
        decreases e - b,
    {
        assert(v@.subrange(b as int, e as int).drop_first() == v@.subrange(b + 1, e as int));
        b += 1;
    }
    b
}

fn wildcard_at(v: &Vec<char>) -> (p: usize)
    ensures
        p as int == first_wildcard(v@, 0),
        p <= v.len(),
{
    let mut p: usize = 0;
    while p < v.len() && v[p] != '*' && v[p] != '?'
        invariant
            p <= v.len(),
            first_wildcard(v@, p as int) == first_wildcard(v@, 0),
        decreases v.len() - p,
    {
        p += 1;
    }
    p
}

proof fn lemma_first_wildcard(s: Seq<char>, k: int)
    requires
        0 <= k <= s.len(),
    ensures
        k <= first_wildcard(s, k) <= s.len(),
        first_wildcard(s, k) < s.len() ==> is_wildcard(s[first_wildcard(s, k)]),
        forall|i: int| k <= i < first_wildcard(s, k) ==> !is_wildcard(#[trigger] s[i]),
    decreases s.len() - k,
{
    if k < s.len() && !is_wildcard(s[k]) {
        lemma_first_wildcard(s, k + 1);
    }
}

fn too_short(what: &str, text: &String, closing: &str, min: usize) -> (m: String)
    ensures
        m@ == too_short_msg(what@, text@, closing@, min as nat),
{
    let mut m = what.to_owned();
    m.append(text.as_str());
    m.append(closing);
    m.append(" too short (minimum ");
    m.append(usize_decimal(min).as_str());
    m.append(" characters)");
    m
}

fn validate_predicate_pattern(pred: &Predicate) -> (r: Result<(), MinistoreError>)
    ensures
        match (r, pattern_check(pred@)) {
            (Ok(()), Ok(())) => true,
            (Err(e), Err(x)) => e@ == x,
            _ => false,
        },
{
    match pred {
        Predicate::Keyword { pattern, kind, .. } => {
            let v = chars_of(pattern.as_str());
            match kind {
                KeywordPatternKind::Prefix => {
                    let e = trimmed_end(&v);
                    let prefix = string_of_range(&v, 0, e);
                    if byte_len_below(&v, 0, e, MIN_PREFIX_LEN) {
                        return Err(MinistoreError::QueryRejected(too_short("prefix pattern '", &prefix, "*'", MIN_PREFIX_LEN)));
                    }
                },
                KeywordPatternKind::Contains => {
                    let e = trimmed_end(&v);
                    let b = trimmed_start(&v, e);
                    let inner = string_of_range(&v, b, e);
                    if byte_len_below(&v, b, e, MIN_CONTAINS_LEN) {
                        return Err(MinistoreError::QueryRejected(too_short("contains pattern '*", &inner, "*'", MIN_CONTAINS_LEN)));
                    }
                },
                KeywordPatternKind::Glob => {
                    let p = wildcard_at(&v);
                    proof {
                        lemma_first_wildcard(v@, 0);
                        if !has_wildcard(v@) {
                            assert(p == v.len()) by {
                                if p < v.len() {
                                    assert(v@.contains(v@[p as int]));
                                }
                            }
                        } else {
                            assert(p < v.len()) by {
                                if p == v.len() {
                                    if v@.contains('*') {
                                        let i = choose|i: int| 0 <= i < v@.len() && v@[i] == '*';
                                        assert(!is_wildcard(v@[i]));
                                    } else {
                                        let i = choose|i: int| 0 <= i < v@.len() && v@[i] == '?';
                                        assert(!is_wildcard(v@[i]));
                                    }
                                }
                            }
                        }
                    }
                    if p < v.len() {
                        let prefix = string_of_range(&v, 0, p);
                        if p == 0 {
                            return Err(MinistoreError::QueryRejected(String::from_str("glob pattern must have a literal prefix before wildcards")));
                        }
                        if byte_len_below(&v, 0, p, MIN_PREFIX_LEN) {
                            return Err(MinistoreError::QueryRejected(too_short("glob prefix '", &prefix, "'", MIN_PREFIX_LEN)));
                        }
                    }
                },
                KeywordPatternKind::Exact => {},
            }
            Ok(())
        },
        Predicate::PathGlob { pattern } => {
            let v = chars_of(pattern.as_str());
            let p = wildcard_at(&v);
            proof {
                lemma_first_wildcard(v@, 0);
                if has_wildcard(v@) {
                    assert(p < v.len()) by {
                        if p == v.len() {
                            if v@.contains('*') {
                                let i = choose|i: int| 0 <= i < v@.len() && v@[i] == '*';
                                assert(!is_wildcard(v@[i]));
                            } else {
                                let i = choose|i: int| 0 <= i < v@.len() && v@[i] == '?';
                                assert(!is_wildcard(v@[i]));
                            }
                        }
                    }
                } else if p < v.len() {
                    assert(v@.contains(v@[p as int]));
                }
            }
            if p < v.len() && !has_literal_prefix(pattern.as_str()) {
                return Err(MinistoreError::QueryRejected(String::from_str("path pattern must have literal prefix before wildcards")));
            }
            Ok(())
        },
        _ => Ok(()),
    }
}

fn validate_patterns(expr: &Expr) -> (r: Result<(), MinistoreError>)
    ensures
        match (r, patterns_check(expr_view(*expr))) {
            (Ok(()), Ok(())) => true,
            (Err(e), Err(x)) => e@ == x,
            _ => false,
        },
    decreases expr,
{
    match expr {
        Expr::And(left, right) | Expr::Or(left, right) => {
            validate_patterns(left)?;
            validate_patterns(right)?;
        },
        Expr::Not(inner) => {
            validate_patterns(inner)?;
        },
        Expr::Pred(pred) => {
            validate_predicate_pattern(pred)?;
        },
    }
    Ok(())
}

/// Normalize and validate a query expression: it needs a positive anchor, and
/// its wildcard patterns must pass the guardrails. An accepted query is returned
/// unchanged.
pub fn normalize(expr: Expr) -> (r: Result<Expr, MinistoreError>)
    ensures
        match (r, normalize_spec(expr_view(expr))) {
            (Ok(e), Ok(x)) => expr_view(e) == x && e == expr,
            (Err(e), Err(x)) => e@ == x,
            _ => false,
        },
{
    if !has_positive_anchor(&expr) {
        return Err(MinistoreError::QueryRejected(String::from_str(
            "query must have at least one positive anchor (FTS term, exact keyword match, or literal path prefix)",
        )));
    }
    validate_patterns(&expr)?;
    Ok(expr)
}

} // verus!
