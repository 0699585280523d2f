//! The syntax tree of a query.
use vstd::prelude::*;

verus! {

/// A boolean combination of predicates.
#[derive(Debug, PartialEq)]
pub enum Expr {
    And(Box<Expr>, Box<Expr>),
    Or(Box<Expr>, Box<Expr>),
    Not(Box<Expr>),
    Pred(Predicate),
}

/// One condition on an item. Numbers keep the text they were written with.
#[derive(Debug, Clone, PartialEq)]
pub enum Predicate {
    Has { field: String },
    PathGlob { pattern: String },
    Keyword { field: String, pattern: String, kind: KeywordPatternKind },
    Text { field: Option<String>, fts: String },
    NumberCmp { field: String, op: CmpOp, value: String },
    NumberRange { field: String, lo: String, hi: String },
    DateCmpAbs { field: String, op: CmpOp, epoch_ms: i64 },
    DateRangeAbs { field: String, lo_ms: i64, hi_ms: i64 },
    DateCmpRel { field: String, op: CmpOp, amount: i64, unit: RelUnit },
    Bool { field: String, value: bool },
}

#[derive(Debug, Copy, Clone, PartialEq, Eq, Structural)]
pub enum CmpOp {
    Eq,
    Gt,
    Gte,
    Lt,
    Lte,
}

#[derive(Debug, Copy, Clone, PartialEq, Eq, Structural)]
pub enum RelUnit {
    H,
    D,
    W,
    M,
    Y,
}

#[derive(Debug, Copy, Clone, PartialEq, Eq, Structural)]
pub enum KeywordPatternKind {
    Exact,
    Prefix,
    Contains,
    Glob,
}

/// The mathematical form of an expression.
pub enum SExpr {
    And(Box<SExpr>, Box<SExpr>),
    Or(Box<SExpr>, Box<SExpr>),
    Not(Box<SExpr>),
    Pred(SPred),
}

/// The mathematical form of a predicate.
pub enum SPred {
    Has { field: Seq<char> },
    PathGlob { pattern: Seq<char> },
    Keyword { field: Seq<char>, pattern: Seq<char>, kind: KeywordPatternKind },
    Text { field: Option<Seq<char>>, fts: Seq<char> },
    NumberCmp { field: Seq<char>, op: CmpOp, value: Seq<char> },
    NumberRange { field: Seq<char>, lo: Seq<char>, hi: Seq<char> },
    DateCmpAbs { field: Seq<char>, op: CmpOp, epoch_ms: i64 },
    DateRangeAbs { field: Seq<char>, lo_ms: i64, hi_ms: i64 },
    DateCmpRel { field: Seq<char>, op: CmpOp, amount: i64, unit: RelUnit },
    Bool { field: Seq<char>, value: bool },
}

impl View for Predicate {
    type V = SPred;

    open spec fn view(&self) -> SPred {
        match self {
            Predicate::Has { field } => SPred::Has { field: field@ },
            Predicate::PathGlob { pattern } => SPred::PathGlob { pattern: pattern@ },
            Predicate::Keyword { field, pattern, kind } => SPred::Keyword {
                field: field@,
                pattern: pattern@,
                kind: *kind,
            },
            Predicate::Text { field, fts } => SPred::Text {
                field: match field {
                    Some(f) => Some(f@),
                    None => None,
                },
                fts: fts@,
            },
            Predicate::NumberCmp { field, op, value } => SPred::NumberCmp {
                field: field@,
                op: *op,
                value: value@,
            },
            Predicate::NumberRange { field, lo, hi } => SPred::NumberRange {
                field: field@,
                lo: lo@,
                hi: hi@,
            },
            Predicate::DateCmpAbs { field, op, epoch_ms } => SPred::DateCmpAbs {
                field: field@,
                op: *op,
                epoch_ms: *epoch_ms,
            },
            Predicate::DateRangeAbs { field, lo_ms, hi_ms } => SPred::DateRangeAbs {
                field: field@,
                lo_ms: *lo_ms,
                hi_ms: *hi_ms,
            },
            Predicate::DateCmpRel { field, op, amount, unit } => SPred::DateCmpRel {
                field: field@,
                op: *op,
                amount: *amount,
                unit: *unit,
            },
            Predicate::Bool { field, value } => SPred::Bool { field: field@, value: *value },
        }
    }
}

/// The mathematical form of an expression tree.
pub open spec fn expr_view(e: Expr) -> SExpr
    decreases e,
{
    match e {
        Expr::And(l, r) => SExpr::And(Box::new(expr_view(*l)), Box::new(expr_view(*r))),
        Expr::Or(l, r) => SExpr::Or(Box::new(expr_view(*l)), Box::new(expr_view(*r))),
        Expr::Not(i) => SExpr::Not(Box::new(expr_view(*i))),
        Expr::Pred(p) => SExpr::Pred(p@),
    }
}

} // verus!
