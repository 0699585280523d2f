//! Compiles a checked query into SQL common table expressions, and builds the
//! final ranked, paged SELECT.
use vstd::prelude::*;
use crate::error::{ErrorView, MinistoreError};
use crate::query::ast::{expr_view, CmpOp, Expr, KeywordPatternKind, Predicate, RelUnit, SExpr, SPred};
use crate::query::normalize::{trim_end_star, trim_start_star};
use crate::query::parser::{parse_date_to_epoch_ms, query_date};
use crate::schema::{
    field_type_name, field_type_name_spec, lookup, pairs_view, text_fields_spec, FieldType, SField,
    Schema,
};
use crate::text::{
    chars_of, concat, i64_decimal, int_decimal, is_whitespace, nat_decimal, push_char,
    spec_is_whitespace, str_eq, string_of_range, usize_decimal,
};

verus! {

/// A value bound to a SQL parameter. A real number is carried as the decimal
/// text it was written with.
#[derive(Debug, Clone, PartialEq)]
pub enum SqlValue {
    Null,
    Integer(i64),
    Real(String),
    Text(String),
}

pub enum SqlView {
    Null,
    Integer(i64),
    Real(Seq<char>),
    Text(Seq<char>),
}

impl View for SqlValue {
    type V = SqlView;

    open spec fn view(&self) -> SqlView {
        match self {
            SqlValue::Null => SqlView::Null,
            SqlValue::Integer(i) => SqlView::Integer(*i),
            SqlValue::Real(s) => SqlView::Real(s@),
            SqlValue::Text(s) => SqlView::Text(s@),
        }
    }
}

pub open spec fn params_view(v: Seq<SqlValue>) -> Seq<SqlView> {
    v.map_values(|x: SqlValue| x@)
}

/// A named common table expression.
#[derive(Debug, Clone)]
pub struct Cte {
    pub name: String,
    pub sql: String,
}

/// The compiled form of a query: CTEs in dependency order, the name of the CTE
/// that holds the matching item ids, and the parameters the SQL refers to as
/// `?1`, `?2`, ...
#[derive(Debug, Clone)]
pub struct CompileOutput {
    pub ctes: Vec<Cte>,
    pub result_cte_name: String,
    pub fts_match: Option<String>,
    pub params: Vec<SqlValue>,
    pub explain_steps: Vec<String>,
    pub requires_fts_join: bool,
}

/// What the compiler has produced so far.
pub struct CState {
    pub ctes: Seq<(Seq<char>, Seq<char>)>,
    pub params: Seq<SqlView>,
    pub explain: Seq<Seq<char>>,
    pub fts_match: Option<Seq<char>>,
    pub requires_fts: bool,
}

pub open spec fn ctes_view(v: Seq<Cte>) -> Seq<(Seq<char>, Seq<char>)> {
    v.map_values(|c: Cte| (c.name@, c.sql@))
}

pub open spec fn strings_view(v: Seq<String>) -> Seq<Seq<char>> {
    v.map_values(|s: String| s@)
}

pub open spec fn opt_view(o: Option<String>) -> Option<Seq<char>> {
    match o {
        Some(s) => Some(s@),
        None => None,
    }
}

pub open spec fn initial_state() -> CState {
    CState { ctes: seq![], params: seq![], explain: seq![], fts_match: None, requires_fts: false }
}

/// The name the next CTE gets.
pub open spec fn next_name(st: CState) -> Seq<char> {
    "cte_"@ + nat_decimal(st.ctes.len())
}

/// The placeholder of the `n`-th parameter.
pub open spec fn placeholder(n: nat) -> Seq<char> {
    "?"@ + nat_decimal(n)
}

pub open spec fn with_param(st: CState, v: SqlView) -> CState {
    CState { params: st.params.push(v), ..st }
}

pub open spec fn finish(st: CState, name: Seq<char>, sql: Seq<char>, ex: Seq<char>) -> CState {
    CState { ctes: st.ctes.push((name, sql)), explain: st.explain.push(ex), ..st }
}

pub open spec fn op_sql(op: CmpOp) -> Seq<char> {
    match op {
        CmpOp::Eq => "="@,
        CmpOp::Gt => ">"@,
        CmpOp::Gte => ">="@,
        CmpOp::Lt => "<"@,
        CmpOp::Lte => "<="@,
    }
}

pub open spec fn unit_name(u: RelUnit) -> Seq<char> {
    match u {
        RelUnit::H => "H"@,
        RelUnit::D => "D"@,
        RelUnit::W => "W"@,
        RelUnit::M => "M"@,
        RelUnit::Y => "Y"@,
    }
}

/// Milliseconds in one unit of a relative duration (months of 30 days, years of
/// 365 days).
pub open spec fn unit_ms(u: RelUnit) -> int {
    match u {
        RelUnit::H => 3600000,
        RelUnit::D => 86400000,
        RelUnit::W => 604800000,
        RelUnit::M => 2592000000,
        RelUnit::Y => 31536000000,
    }
}

pub open spec fn is_implicit_date(field: Seq<char>) -> bool {
    field == "created"@ || field == "updated"@
}

pub open spec fn implicit_col(field: Seq<char>) -> Seq<char> {
    if field == "created"@ {
        "created_at"@
    } else {
        "updated_at"@
    }
}

/// Relative dates on `created`/`updated` count back from now (an age); on a
/// date field they count forward from now.
pub open spec fn rel_target(field: Seq<char>, amount: i64, unit: RelUnit, now: i64) -> int {
    if is_implicit_date(field) {
        now - amount * unit_ms(unit)
    } else {
        now + amount * unit_ms(unit)
    }
}

pub open spec fn fits_i64(x: int) -> bool {
    i64::MIN <= x <= i64::MAX
}

/// Every relative date of the expression can be computed in 64-bit arithmetic.
pub open spec fn rel_in_range(e: SExpr, now: i64) -> bool
    decreases e,
{
    match e {
        SExpr::And(l, r) => rel_in_range(*l, now) && rel_in_range(*r, now),
        SExpr::Or(l, r) => rel_in_range(*l, now) && rel_in_range(*r, now),
        SExpr::Not(i) => rel_in_range(*i, now),
        SExpr::Pred(SPred::DateCmpRel { field, amount, unit, .. }) => fits_i64(amount * unit_ms(unit))
            && fits_i64(rel_target(field, amount, unit, now)),
        SExpr::Pred(_) => true,
    }
}

/// Age semantics of `created`/`updated`: younger than N means after now - N.
pub open spec fn age_op(op: CmpOp) -> CmpOp {
    match op {
        CmpOp::Lt => CmpOp::Gte,
        CmpOp::Lte => CmpOp::Gte,
        CmpOp::Gt => CmpOp::Lte,
        CmpOp::Gte => CmpOp::Lte,
        CmpOp::Eq => CmpOp::Eq,
    }
}

pub open spec fn fts_special(c: char) -> bool {
    spec_is_whitespace(c) || c == '"' || c == ':' || c == '*' || c == '^' || c == '(' || c == ')'
}

/// `s` with each `"` doubled.
pub open spec fn double_quotes(s: Seq<char>) -> Seq<char>
    decreases s.len(),
{
    if s.len() == 0 {
        seq![]
    } else if s.last() == '"' {
        double_quotes(s.drop_last()) + "\"\""@
    } else {
        double_quotes(s.drop_last()).push(s.last())
    }
}

/// A full-text term as FTS5 reads it: quoted (with `"` doubled) when it holds
/// white space or an FTS operator character.
pub open spec fn quote_fts(term: Seq<char>) -> Seq<char> {
    if exists|i: int| 0 <= i < term.len() && fts_special(#[trigger] term[i]) {
        "\""@ + double_quotes(term) + "\""@
    } else {
        term
    }
}

/// `(col1:term OR col2:term ...)` over the text columns.
pub open spec fn fts_columns(cols: Seq<(Seq<char>, Seq<char>)>, q: Seq<char>) -> Seq<char>
    decreases cols.len(),
{
    if cols.len() == 0 {
        seq![]
    } else if cols.len() == 1 {
        cols[0].0 + ":"@ + q
    } else {
        fts_columns(cols.drop_last(), q) + " OR "@ + cols.last().0 + ":"@ + q
    }
}

pub open spec fn unknown_field(field: Seq<char>) -> ErrorView {
    ErrorView::UnknownField(field)
}

pub open spec fn expected_type(field: Seq<char>, what: Seq<char>, got: FieldType) -> ErrorView {
    ErrorView::TypeMismatch { field, message: "expected "@ + what + " field, got "@ + field_type_name_spec(got) }
}

/// A full-text predicate: on one text field, or on every text field.
pub open spec fn c_text(sch: Seq<(Seq<char>, SField)>, st0: CState, field: Option<Seq<char>>, fts: Seq<char>) -> Result<(CState, Seq<char>), ErrorView> {
    let st = CState { requires_fts: true, fts_match: Some(fts), ..st0 };
    let name = next_name(st);
    let q = quote_fts(fts);
    let m: Result<Seq<char>, ErrorView> = match field {
        Some(f) => match lookup(sch, f) {
            None => Err(unknown_field(f)),
            Some(spec) => if spec.field_type != FieldType::Text {
                Err(ErrorView::TypeMismatch { field: f, message: "FTS predicate used on non-text field"@ })
            } else {
                Ok(f + ":"@ + q)
            },
        },
        None => {
            let cols = text_fields_spec(sch);
            if cols.len() == 0 {
                Err(ErrorView::QueryRejected("no text fields in schema for bare text query"@))
            } else {
                Ok("("@ + fts_columns(cols, q) + ")"@)
            }
        },
    };
    match m {
        Err(e) => Err(e),
        Ok(match_str) => {
            let st1 = with_param(st, SqlView::Text(match_str));
            let p = placeholder(st1.params.len());
            Ok((finish(st1, name, "SELECT rowid AS item_id FROM search WHERE search MATCH "@ + p, "FTS "@ + fts), name))
        },
    }
}

/// A boolean field equal to a value.
pub open spec fn c_bool(sch: Seq<(Seq<char>, SField)>, st: CState, field: Seq<char>, value: bool) -> Result<(CState, Seq<char>), ErrorView> {
    match lookup(sch, field) {
        None => Err(unknown_field(field)),
        Some(spec) => if spec.field_type != FieldType::Bool {
            Err(expected_type(field, "bool"@, spec.field_type))
        } else {
            let name = next_name(st);
            let st1 = with_param(st, SqlView::Text(field));
            let pf = placeholder(st1.params.len());
            let st2 = with_param(st1, SqlView::Integer(if value { 1 } else { 0 }));
            let pv = placeholder(st2.params.len());
            Ok((finish(st2, name, "SELECT item_id FROM field_bool WHERE field = "@ + pf + " AND value = "@ + pv,
                "BOOL "@ + field + ":"@ + (if value { "true"@ } else { "false"@ })), name))
        },
    }
}

/// A date compared with an absolute instant.
pub open spec fn c_date_abs(sch: Seq<(Seq<char>, SField)>, st: CState, field: Seq<char>, op: CmpOp, ms: i64) -> Result<(CState, Seq<char>), ErrorView> {
    if is_implicit_date(field) {
        let name = next_name(st);
        let st1 = with_param(st, SqlView::Integer(ms));
        let p = placeholder(st1.params.len());
        Ok((finish(st1, name, "SELECT id AS item_id FROM items WHERE "@ + implicit_col(field) + " "@ + op_sql(op) + " "@ + p,
            "DATE "@ + field + op_sql(op) + int_decimal(ms as int)), name))
    } else {
        match lookup(sch, field) {
            None => Err(unknown_field(field)),
            Some(spec) => if spec.field_type != FieldType::Date {
                Err(expected_type(field, "date"@, spec.field_type))
            } else {
                let name = next_name(st);
                let st1 = with_param(st, SqlView::Text(field));
                let pf = placeholder(st1.params.len());
                let st2 = with_param(st1, SqlView::Integer(ms));
                let pv = placeholder(st2.params.len());
                Ok((finish(st2, name, "SELECT item_id FROM field_date WHERE field = "@ + pf + " AND value "@ + op_sql(op) + " "@ + pv,
                    "DATE "@ + field + op_sql(op) + int_decimal(ms as int)), name))
            },
        }
    }
}

pub open spec fn kw_sql(pf: Seq<char>, test: Seq<char>, pv: Seq<char>) -> Seq<char> {
    "SELECT p.item_id FROM kw_dict d JOIN kw_postings p ON p.value_id = d.id WHERE d.field = "@ + pf + " AND d.value "@ + test + " "@ + pv
}

/// The value a keyword pattern is matched with, and how.
pub open spec fn kw_value(pattern: Seq<char>, kind: KeywordPatternKind) -> (Seq<char>, Seq<char>) {
    match kind {
        KeywordPatternKind::Exact => ("="@, pattern),
        KeywordPatternKind::Prefix => ("LIKE"@, trim_end_star(pattern) + "%"@),
        KeywordPatternKind::Contains => ("LIKE"@, "%"@ + trim_start_star(trim_end_star(pattern)) + "%"@),
        KeywordPatternKind::Glob => ("GLOB"@, pattern),
    }
}

/// `field:value`, read by the schema type of the field.
pub open spec fn c_keyword(sch: Seq<(Seq<char>, SField)>, st: CState, field: Seq<char>, pattern: Seq<char>, kind: KeywordPatternKind) -> Result<(CState, Seq<char>), ErrorView> {
    if is_implicit_date(field) {
        if kind != KeywordPatternKind::Exact {
            Err(ErrorView::TypeMismatch { field, message: "wildcards not supported for implicit date fields"@ })
        } else {
            match query_date(pattern) {
                Err(e) => Err(e),
                Ok(ms) => {
                    let name = next_name(st);
                    let st1 = with_param(st, SqlView::Integer(ms));
                    let p = placeholder(st1.params.len());
                    Ok((finish(st1, name, "SELECT id AS item_id FROM items WHERE "@ + implicit_col(field) + " = "@ + p,
                        "IMPLICIT DATE "@ + field + ":"@ + pattern), name))
                },
            }
        }
    } else {
        match lookup(sch, field) {
            None => Err(unknown_field(field)),
            Some(spec) => if spec.field_type == FieldType::Text {
                c_text(sch, st, Some(field), pattern)
            } else if spec.field_type == FieldType::Bool && (pattern == "true"@ || pattern == "false"@) {
                c_bool(sch, st, field, pattern == "true"@)
            } else if spec.field_type == FieldType::Date {
                if kind != KeywordPatternKind::Exact {
                    Err(ErrorView::TypeMismatch { field, message: "wildcards not supported for date fields; use comparisons"@ })
                } else {
                    match query_date(pattern) {
                        Err(e) => Err(e),
                        Ok(ms) => c_date_abs(sch, st, field, CmpOp::Eq, ms),
                    }
                }
            } else if spec.field_type != FieldType::Keyword {
                Err(ErrorView::TypeMismatch {
                    field,
                    message: "predicate is keyword-style but schema type is "@ + field_type_name_spec(spec.field_type),
                })
            } else {
                let name = next_name(st);
                let (test, value) = kw_value(pattern, kind);
                let st1 = with_param(st, SqlView::Text(field));
                let pf = placeholder(st1.params.len());
                let st2 = with_param(st1, SqlView::Text(value));
                let pv = placeholder(st2.params.len());
                Ok((finish(st2, name, kw_sql(pf, test, pv), "KEYWORD "@ + field + ":"@ + pattern), name))
            },
        }
    }
}

/// Whether a path pattern is a literal prefix followed by one final `*`.
pub open spec fn path_prefix_only(pattern: Seq<char>) -> bool {
    &&& pattern.len() > 0
    &&& pattern.last() == '*'
    &&& !pattern.drop_last().contains('*')
    &&& !pattern.contains('?')
}

pub open spec fn c_path(st: CState, pattern: Seq<char>) -> (CState, Seq<char>) {
    let name = next_name(st);
    if path_prefix_only(pattern) {
        let st1 = with_param(st, SqlView::Text(trim_end_star(pattern) + "%"@));
        let p = placeholder(st1.params.len());
        (finish(st1, name, "SELECT id AS item_id FROM items WHERE path LIKE "@ + p, "PATH "@ + pattern), name)
    } else {
        let st1 = with_param(st, SqlView::Text(pattern));
        let p = placeholder(st1.params.len());
        (finish(st1, name, "SELECT id AS item_id FROM items WHERE path GLOB "@ + p, "PATH "@ + pattern), name)
    }
}

pub open spec fn c_number(sch: Seq<(Seq<char>, SField)>, st: CState, field: Seq<char>, op: CmpOp, value: Seq<char>) -> Result<(CState, Seq<char>), ErrorView> {
    match lookup(sch, field) {
        None => Err(unknown_field(field)),
        Some(spec) => if spec.field_type != FieldType::Number {
            Err(expected_type(field, "number"@, spec.field_type))
        } else {
            let name = next_name(st);
            let st1 = with_param(st, SqlView::Text(field));
            let pf = placeholder(st1.params.len());
            let st2 = with_param(st1, SqlView::Real(value));
            let pv = placeholder(st2.params.len());
            Ok((finish(st2, name, "SELECT item_id FROM field_number WHERE field = "@ + pf + " AND value "@ + op_sql(op) + " "@ + pv,
                "NUMBER "@ + field + op_sql(op) + value), name))
        },
    }
}

pub open spec fn c_number_range(sch: Seq<(Seq<char>, SField)>, st: CState, field: Seq<char>, lo: Seq<char>, hi: Seq<char>) -> Result<(CState, Seq<char>), ErrorView> {
    match lookup(sch, field) {
        None => Err(unknown_field(field)),
        Some(spec) => if spec.field_type != FieldType::Number {
            Err(expected_type(field, "number"@, spec.field_type))
        } else {
            let name = next_name(st);
            let st1 = with_param(st, SqlView::Text(field));
            let pf = placeholder(st1.params.len());
            let st2 = with_param(st1, SqlView::Real(lo));
            let plo = placeholder(st2.params.len());
            let st3 = with_param(st2, SqlView::Real(hi));
            let phi = placeholder(st3.params.len());
            Ok((finish(st3, name, "SELECT item_id FROM field_number WHERE field = "@ + pf + " AND value >= "@ + plo + " AND value <= "@ + phi,
                "NUMBER "@ + field + ":"@ + lo + ".."@ + hi), name))
        },
    }
}

pub open spec fn c_date_range(sch: Seq<(Seq<char>, SField)>, st: CState, field: Seq<char>, lo: i64, hi: i64) -> Result<(CState, Seq<char>), ErrorView> {
    if is_implicit_date(field) {
        let name = next_name(st);
        let col = implicit_col(field);
        let st1 = with_param(st, SqlView::Integer(lo));
        let plo = placeholder(st1.params.len());
        let st2 = with_param(st1, SqlView::Integer(hi));
        let phi = placeholder(st2.params.len());
        Ok((finish(st2, name, "SELECT id AS item_id FROM items WHERE "@ + col + " >= "@ + plo + " AND "@ + col + " <= "@ + phi,
            "IMPLICIT DATE RANGE "@ + field + ":"@ + int_decimal(lo as int) + ".."@ + int_decimal(hi as int)), name))
    } else {
        match lookup(sch, field) {
            None => Err(unknown_field(field)),
            Some(spec) => if spec.field_type != FieldType::Date {
                Err(expected_type(field, "date"@, spec.field_type))
            } else {
                let name = next_name(st);
                let st1 = with_param(st, SqlView::Text(field));
                let pf = placeholder(st1.params.len());
                let st2 = with_param(st1, SqlView::Integer(lo));
                let plo = placeholder(st2.params.len());
                let st3 = with_param(st2, SqlView::Integer(hi));
                let phi = placeholder(st3.params.len());
                Ok((finish(st3, name, "SELECT item_id FROM field_date WHERE field = "@ + pf + " AND value >= "@ + plo + " AND value <= "@ + phi,
                    "DATE "@ + field + ":"@ + int_decimal(lo as int) + ".."@ + int_decimal(hi as int)), name))
            },
        }
    }
}

pub open spec fn c_date_rel(sch: Seq<(Seq<char>, SField)>, st: CState, now: i64, field: Seq<char>, op: CmpOp, amount: i64, unit: RelUnit) -> Result<(CState, Seq<char>), ErrorView> {
    let target = rel_target(field, amount, unit, now) as i64;
    if is_implicit_date(field) {
        let name = next_name(st);
        let mop = age_op(op);
        let st1 = with_param(st, SqlView::Integer(target));
        let p = placeholder(st1.params.len());
        Ok((finish(st1, name, "SELECT id AS item_id FROM items WHERE "@ + implicit_col(field) + " "@ + op_sql(mop) + " "@ + p,
            "DATE(rel-age) "@ + field + op_sql(mop) + int_decimal(amount as int) + unit_name(unit)), name))
    } else {
        match lookup(sch, field) {
            None => Err(unknown_field(field)),
            Some(spec) => if spec.field_type != FieldType::Date {
                Err(expected_type(field, "date"@, spec.field_type))
            } else {
                let name = next_name(st);
                let st1 = with_param(st, SqlView::Text(field));
                let pf = placeholder(st1.params.len());
                let st2 = with_param(st1, SqlView::Integer(target));
                let pv = placeholder(st2.params.len());
                Ok((finish(st2, name, "SELECT item_id FROM field_date WHERE field = "@ + pf + " AND value "@ + op_sql(op) + " "@ + pv,
                    "DATE(rel) "@ + field + op_sql(op) + int_decimal(amount as int) + unit_name(unit)), name))
            },
        }
    }
}

pub open spec fn c_has(sch: Seq<(Seq<char>, SField)>, st: CState, field: Seq<char>) -> Result<(CState, Seq<char>), ErrorView> {
    if lookup(sch, field) is None {
        Err(unknown_field(field))
    } else {
        let name = next_name(st);
        let st1 = with_param(st, SqlView::Text(field));
        let p = placeholder(st1.params.len());
        Ok((finish(st1, name, "SELECT item_id FROM field_present WHERE field = "@ + p, "HAS "@ + field), name))
    }
}

/// One predicate compiled to a CTE.
pub open spec fn c_pred(sch: Seq<(Seq<char>, SField)>, now: i64, st: CState, p: SPred) -> Result<(CState, Seq<char>), ErrorView> {
    match p {
        SPred::Has { field } => c_has(sch, st, field),
        SPred::PathGlob { pattern } => Ok(c_path(st, pattern)),
        SPred::Keyword { field, pattern, kind } => c_keyword(sch, st, field, pattern, kind),
        SPred::Text { field, fts } => c_text(sch, st, field, fts),
        SPred::NumberCmp { field, op, value } => c_number(sch, st, field, op, value),
        SPred::NumberRange { field, lo, hi } => c_number_range(sch, st, field, lo, hi),
        SPred::DateCmpAbs { field, op, epoch_ms } => c_date_abs(sch, st, field, op, epoch_ms),
        SPred::DateRangeAbs { field, lo_ms, hi_ms } => c_date_range(sch, st, field, lo_ms, hi_ms),
        SPred::DateCmpRel { field, op, amount, unit } => c_date_rel(sch, st, now, field, op, amount, unit),
        SPred::Bool { field, value } => c_bool(sch, st, field, value),
    }
}

/// `SELECT item_id FROM l <op> SELECT item_id FROM r`.
pub open spec fn set_sql(op: Seq<char>, l: Seq<char>, r: Seq<char>) -> Seq<char> {
    "SELECT item_id FROM "@ + l + " "@ + op + " SELECT item_id FROM "@ + r
}

pub open spec fn set_explain(op: Seq<char>, word: Seq<char>, l: Seq<char>, r: Seq<char>) -> Seq<char> {
    op + " "@ + l + " "@ + word + " "@ + r
}

/// An expression compiled to CTEs, children first: AND intersects, OR unites,
/// NOT takes the complement within all items.
pub open spec fn c_expr(sch: Seq<(Seq<char>, SField)>, now: i64, st: CState, e: SExpr) -> Result<(CState, Seq<char>), ErrorView>
    decreases e,
{
    match e {
        SExpr::And(l, r) => match c_expr(sch, now, st, *l) {
            Err(x) => Err(x),
            Ok((st1, ln)) => match c_expr(sch, now, st1, *r) {
                Err(x) => Err(x),
                Ok((st2, rn)) => {
                    let name = next_name(st2);
                    Ok((finish(st2, name, set_sql("INTERSECT"@, ln, rn), set_explain("INTERSECT"@, "AND"@, ln, rn)), name))
                },
            },
        },
        SExpr::Or(l, r) => match c_expr(sch, now, st, *l) {
            Err(x) => Err(x),
            Ok((st1, ln)) => match c_expr(sch, now, st1, *r) {
                Err(x) => Err(x),
                Ok((st2, rn)) => {
                    let name = next_name(st2);
                    Ok((finish(st2, name, set_sql("UNION"@, ln, rn), set_explain("UNION"@, "OR"@, ln, rn)), name))
                },
            },
        },
        SExpr::Not(i) => match c_expr(sch, now, st, *i) {
            Err(x) => Err(x),
            Ok((st1, iname)) => {
                let name = next_name(st1);
                Ok((finish(st1, name, "SELECT id AS item_id FROM items EXCEPT SELECT item_id FROM "@ + iname,
                    "EXCEPT NOT "@ + iname), name))
            },
        },
        SExpr::Pred(p) => c_pred(sch, now, st, p),
    }
}

/// The compiled form of an expression, from an empty compiler state.
pub open spec fn compile_spec(sch: Seq<(Seq<char>, SField)>, e: SExpr, now: i64) -> Result<(CState, Seq<char>), ErrorView> {
    c_expr(sch, now, initial_state(), e)
}


/// No CTE, parameter or explanation was added: what a rejected predicate
/// leaves of the compiler state.
pub open spec fn nothing_emitted(before: CState, after: CState) -> bool {
    after.ctes == before.ctes && after.params == before.params && after.explain == before.explain
}

pub open spec fn cres(r: Result<String, MinistoreError>, st: CState) -> Result<(CState, Seq<char>), ErrorView> {
    match r {
        Ok(n) => Ok((st, n@)),
        Err(e) => Err(e@),
    }
}

fn double_quoted(v: &Vec<char>) -> (s: String)
    ensures
        s@ == double_quotes(v@),
{
    let mut s = String::new();
    let mut i: usize = 0;
    while i < v.len()
        invariant
            i <= v.len(),
            s@ == double_quotes(v@.take(i as int)),
        decreases v.len() - i,
    {
        assert(v@.take(i + 1).drop_last() == v@.take(i as int));
        assert(v@.take(i + 1).last() == v@[i as int]);
        if v[i] == '"' {
            s.append("\"\"");
        } else {
            push_char(&mut s, v[i]);
        }
        i += 1;
    }
    assert(v@.take(v.len() as int) == v@);
    s
}

/// Quote an FTS term when it holds white space, quotes or FTS operator characters,
/// doubling its quotes.
pub fn quote_fts_term(term: &str) -> (r: String)
    ensures
        r@ == quote_fts(term@),
{
    let v = chars_of(term);
    let mut i: usize = 0;
    let mut special = false;
    while i < v.len()
        invariant
            i <= v.len(),
            v@ == term@,
            special == exists|k: int| 0 <= k < i && fts_special(#[trigger] v@[k]),
        decreases v.len() - i,
    {
        let c = v[i];
        if is_whitespace(c) || c == '"' || c == ':' || c == '*' || c == '^' || c == '(' || c == ')' {
            special = true;
        }
        i += 1;
    }
    if special {
        let mut r = String::from_str("\"");
        r.append(double_quoted(&v).as_str());
        r.append("\"");
        r
    } else {
        term.to_owned()
    }
}

fn fts_column_list(cols: &Vec<(String, String)>, q: &String) -> (r: String)
    requires
        cols.len() > 0,
    ensures
        r@ == fts_columns(pairs_view(cols@), q@),
{
    let ghost pv = pairs_view(cols@);
    let mut r = concat(cols[0].0.as_str(), ":");
    r.append(q.as_str());
    assert(pv.take(1).len() == 1);
    assert(pv.take(1)[0] == pv[0]);
    let mut i: usize = 1;
    while i < cols.len()
        invariant
            1 <= i <= cols.len(),
            pv == pairs_view(cols@),
            r@ == fts_columns(pv.take(i as int), q@),
        decreases cols.len() - i,
    {
        assert(pv.take(i + 1).drop_last() == pv.take(i as int));
        assert(pv.take(i + 1).last() == pv[i as int]);
        r.append(" OR ");
        r.append(cols[i].0.as_str());
        r.append(":");
        r.append(q.as_str());
        i += 1;
    }
    assert(pv.take(cols.len() as int) == pv);
    r
}

fn op_text(op: CmpOp) -> (r: String)
    ensures
        r@ == op_sql(op),
{
    match op {
        CmpOp::Eq => String::from_str("="),
        CmpOp::Gt => String::from_str(">"),
        CmpOp::Gte => String::from_str(">="),
        CmpOp::Lt => String::from_str("<"),
        CmpOp::Lte => String::from_str("<="),
    }
}

fn unit_text(u: RelUnit) -> (r: String)
    ensures
        r@ == unit_name(u),
{
    match u {
        RelUnit::H => String::from_str("H"),
        RelUnit::D => String::from_str("D"),
        RelUnit::W => String::from_str("W"),
        RelUnit::M => String::from_str("M"),
        RelUnit::Y => String::from_str("Y"),
    }
}

fn unit_millis(u: RelUnit) -> (r: i64)
    ensures
        r == unit_ms(u),
{
    match u {
        RelUnit::H => 3600000,
        RelUnit::D => 86400000,
        RelUnit::W => 604800000,
        RelUnit::M => 2592000000,
        RelUnit::Y => 31536000000,
    }
}

fn implicit_date(field: &str) -> (r: bool)
    ensures
        r == is_implicit_date(field@),
{
    str_eq(field, "created") || str_eq(field, "updated")
}

fn implicit_column(field: &str) -> (r: String)
    ensures
        r@ == implicit_col(field@),
{
    if str_eq(field, "created") {
        String::from_str("created_at")
    } else {
        String::from_str("updated_at")
    }
}

fn age_operator(op: CmpOp) -> (r: CmpOp)
    ensures
        r == age_op(op),
{
    match op {
        CmpOp::Lt => CmpOp::Gte,
        CmpOp::Lte => CmpOp::Gte,
        CmpOp::Gt => CmpOp::Lte,
        CmpOp::Gte => CmpOp::Lte,
        CmpOp::Eq => CmpOp::Eq,
    }
}

fn expected_type_error(field: &String, what: &str, got: FieldType) -> (e: MinistoreError)
    ensures
        e@ == expected_type(field@, what@, got),
{
    let mut m = String::from_str("expected ");
    m.append(what);
    m.append(" field, got ");
    m.append(field_type_name(got).as_str());
    MinistoreError::TypeMismatch { field: field.clone(), message: m }
}

/// Whether every relative date of the expression can be computed in 64-bit
/// arithmetic at time `now_ms`.
pub fn relative_offsets_fit(expr: &Expr, now_ms: i64) -> (r: bool)
    ensures
        r == rel_in_range(expr_view(*expr), now_ms),
    decreases expr,
{
    match expr {
        Expr::And(l, r) => relative_offsets_fit(l, now_ms) && relative_offsets_fit(r, now_ms),
        Expr::Or(l, r) => relative_offsets_fit(l, now_ms) && relative_offsets_fit(r, now_ms),
        Expr::Not(i) => relative_offsets_fit(i, now_ms),
        Expr::Pred(Predicate::DateCmpRel { field, amount, unit, .. }) => {
            let k = unit_millis(*unit);
            let d = match amount.checked_mul(k) {
                Some(d) => d,
                None => return false,
            };
            if implicit_date(field.as_str()) {
                now_ms.checked_sub(d).is_some()
            } else {
                now_ms.checked_add(d).is_some()
            }
        },
        Expr::Pred(_) => true,
    }
}

struct Compiler<'a> {
    schema: &'a Schema,
    now_ms: i64,
    ctes: Vec<Cte>,
    params: Vec<SqlValue>,
    explain: Vec<String>,
    fts_match: Option<String>,
    requires_fts_join: bool,
}

impl<'a> Compiler<'a> {
    spec fn st(&self) -> CState {
        CState {
            ctes: ctes_view(self.ctes@),
            params: params_view(self.params@),
            explain: strings_view(self.explain@),
            fts_match: opt_view(self.fts_match),
            requires_fts: self.requires_fts_join,
        }
    }

    spec fn sch(&self) -> Seq<(Seq<char>, SField)> {
        self.schema.entries()
    }

    fn next_cte_name(&self) -> (r: String)
        ensures
            r@ == next_name(self.st()),
    {
        concat("cte_", usize_decimal(self.ctes.len()).as_str())
    }

    fn push_param(&mut self, v: SqlValue) -> (r: String)
        ensures
            final(self).st() == with_param(old(self).st(), v@),
            r@ == placeholder(final(self).st().params.len()),
            final(self).schema == old(self).schema,
            final(self).now_ms == old(self).now_ms,
    {
        let ghost vv = v@;
        self.params.push(v);
        assert(params_view(self.params@) =~= params_view(old(self).params@).push(vv));
        concat("?", usize_decimal(self.params.len()).as_str())
    }

    fn push_cte(&mut self, name: String, sql: String, ex: String)
        ensures
            final(self).st() == finish(old(self).st(), name@, sql@, ex@),
            final(self).schema == old(self).schema,
            final(self).now_ms == old(self).now_ms,
    {
        let ghost (n, q, x) = (name@, sql@, ex@);
        self.ctes.push(Cte { name, sql });
        self.explain.push(ex);
        assert(ctes_view(self.ctes@) =~= ctes_view(old(self).ctes@).push((n, q)));
        assert(strings_view(self.explain@) =~= strings_view(old(self).explain@).push(x));
    }

    fn compile_has(&mut self, field: String) -> (r: Result<String, MinistoreError>)
        ensures
            final(self).schema == old(self).schema,
            final(self).now_ms == old(self).now_ms,
            cres(r, final(self).st()) == c_has(old(self).sch(), old(self).st(), field@),
            r is Err ==> nothing_emitted(old(self).st(), final(self).st()),
    {
        if !self.schema.has_field(field.as_str()) {
            return Err(MinistoreError::UnknownField(field));
        }
        let name = self.next_cte_name();
        let p = self.push_param(SqlValue::Text(field.clone()));
        let sql = concat("SELECT item_id FROM field_present WHERE field = ", p.as_str());
        self.push_cte(name.clone(), sql, concat("HAS ", field.as_str()));
        Ok(name)
    }

    fn compile_path(&mut self, pattern: String) -> (r: String)
        ensures
            final(self).schema == old(self).schema,
            final(self).now_ms == old(self).now_ms,
            (final(self).st(), r@) == c_path(old(self).st(), pattern@),
    {
        let name = self.next_cte_name();
        let v = chars_of(pattern.as_str());
        let n = v.len();
        let mut prefix_only = n > 0 && v[n - 1] == '*';
        let mut i: usize = 0;
        while i < n
            invariant
                i <= n == v.len(),
                v@ == pattern@,
                prefix_only == (n > 0 && v@[n - 1] == '*' && (forall|k: int| 0 <= k < i ==> #[trigger] v@[k] != '?' && (k < n - 1 ==> v@[k] != '*'))),
            decreases n - i,
        {
            if v[i] == '?' || (i + 1 < n && v[i] == '*') {
                prefix_only = false;
            }
            i += 1;
        }
        proof {
            let pat = pattern@;
            if prefix_only {
                assert(!pat.drop_last().contains('*'));
                assert(!pat.contains('?'));
            } else if n > 0 && pat.last() == '*' {
                let k = choose|k: int| 0 <= k < n && !(#[trigger] v@[k] != '?' && (k < n - 1 ==> v@[k] != '*'));
                if v@[k] == '?' {
                    assert(pat.contains('?'));
                } else {
                    assert(pat.drop_last()[k] == '*');
                }
            }
        }
        if prefix_only {
            let e = n - 1;
            let mut lit = string_of_range(&v, 0, e);
            proof {
                assert(v@.subrange(0, e as int) == pattern@.drop_last());
                assert(trim_end_star(pattern@) == trim_end_star(pattern@.drop_last()));
                assert(pattern@.drop_last().len() == 0 || pattern@.drop_last().last() != '*') by {
                    if pattern@.drop_last().len() > 0 {
                        assert(pattern@.drop_last().contains(pattern@.drop_last().last()));
                    }
                }
            }
            lit.append("%");
            let p = self.push_param(SqlValue::Text(lit));
            let sql = concat("SELECT id AS item_id FROM items WHERE path LIKE ", p.as_str());
            self.push_cte(name.clone(), sql, concat("PATH ", pattern.as_str()));
        } else {
            let p = self.push_param(SqlValue::Text(pattern.clone()));
            let sql = concat("SELECT id AS item_id FROM items WHERE path GLOB ", p.as_str());
            self.push_cte(name.clone(), sql, concat("PATH ", pattern.as_str()));
        }
        name
    }

    fn compile_text(&mut self, field: Option<String>, fts: String) -> (r: Result<String, MinistoreError>)
        ensures
            final(self).schema == old(self).schema,
            final(self).now_ms == old(self).now_ms,
            cres(r, final(self).st()) == c_text(old(self).sch(), old(self).st(), opt_view(field), fts@),
            r is Err ==> nothing_emitted(old(self).st(), final(self).st()),
    {
        self.requires_fts_join = true;
        self.fts_match = Some(fts.clone());
        let name = self.next_cte_name();
        let q = quote_fts_term(fts.as_str());
        let schema = self.schema;
        let match_str = match field {
            Some(f) => {
                let spec = match schema.get(f.as_str()) {
                    Some(spec) => spec,
                    None => return Err(MinistoreError::UnknownField(f)),
                };
                if spec.field_type != FieldType::Text {
                    return Err(MinistoreError::TypeMismatch {
                        field: f,
                        message: String::from_str("FTS predicate used on non-text field"),
                    });
                }
                let mut m = concat(f.as_str(), ":");
                m.append(q.as_str());
                m
            },
            None => {
                let cols = schema.text_fields_in_order();
                if cols.len() == 0 {
                    return Err(MinistoreError::QueryRejected(String::from_str("no text fields in schema for bare text query")));
                }
                let mut m = String::from_str("(");
                m.append(fts_column_list(&cols, &q).as_str());
                m.append(")");
                m
            },
        };
        let p = self.push_param(SqlValue::Text(match_str));
        let sql = concat("SELECT rowid AS item_id FROM search WHERE search MATCH ", p.as_str());
        self.push_cte(name.clone(), sql, concat("FTS ", fts.as_str()));
        Ok(name)
    }

    fn compile_bool(&mut self, field: String, value: bool) -> (r: Result<String, MinistoreError>)
        ensures
            final(self).schema == old(self).schema,
            final(self).now_ms == old(self).now_ms,
            cres(r, final(self).st()) == c_bool(old(self).sch(), old(self).st(), field@, value),
            r is Err ==> nothing_emitted(old(self).st(), final(self).st()),
    {
        let schema = self.schema;
        let spec = match schema.get(field.as_str()) {
            Some(spec) => spec,
            None => return Err(MinistoreError::UnknownField(field)),
        };
        if spec.field_type != FieldType::Bool {
            return Err(expected_type_error(&field, "bool", spec.field_type));
        }
        let name = self.next_cte_name();
        let pf = self.push_param(SqlValue::Text(field.clone()));
        let pv = self.push_param(SqlValue::Integer(if value { 1 } else { 0 }));
        let mut sql = concat("SELECT item_id FROM field_bool WHERE field = ", pf.as_str());
        sql.append(" AND value = ");
        sql.append(pv.as_str());
        let mut ex = concat("BOOL ", field.as_str());
        ex.append(":");
        ex.append(if value { "true" } else { "false" });
        self.push_cte(name.clone(), sql, ex);
        Ok(name)
    }

    fn compile_date_abs(&mut self, field: String, op: CmpOp, ms: i64) -> (r: Result<String, MinistoreError>)
        ensures
            final(self).schema == old(self).schema,
            final(self).now_ms == old(self).now_ms,
            cres(r, final(self).st()) == c_date_abs(old(self).sch(), old(self).st(), field@, op, ms),
            r is Err ==> nothing_emitted(old(self).st(), final(self).st()),
    {
        if implicit_date(field.as_str()) {
            let name = self.next_cte_name();
            let p = self.push_param(SqlValue::Integer(ms));
            let mut sql = concat("SELECT id AS item_id FROM items WHERE ", implicit_column(field.as_str()).as_str());
            sql.append(" ");
            sql.append(op_text(op).as_str());
            sql.append(" ");
            sql.append(p.as_str());
            let mut ex = concat("DATE ", field.as_str());
            ex.append(op_text(op).as_str());
            ex.append(i64_decimal(ms).as_str());
            self.push_cte(name.clone(), sql, ex);
            return Ok(name);
        }
        let schema = self.schema;
        let spec = match schema.get(field.as_str()) {
            Some(spec) => spec,
            None => return Err(MinistoreError::UnknownField(field)),
        };
        if spec.field_type != FieldType::Date {
            return Err(expected_type_error(&field, "date", spec.field_type));
        }
        let name = self.next_cte_name();
        let pf = self.push_param(SqlValue::Text(field.clone()));
        let pv = self.push_param(SqlValue::Integer(ms));
        let mut sql = concat("SELECT item_id FROM field_date WHERE field = ", pf.as_str());
        sql.append(" AND value ");
        sql.append(op_text(op).as_str());
        sql.append(" ");
        sql.append(pv.as_str());
        let mut ex = concat("DATE ", field.as_str());
        ex.append(op_text(op).as_str());
        ex.append(i64_decimal(ms).as_str());
        self.push_cte(name.clone(), sql, ex);
        Ok(name)
    }

    fn compile_keyword(&mut self, field: String, pattern: String, kind: KeywordPatternKind) -> (r: Result<String, MinistoreError>)
        ensures
            final(self).schema == old(self).schema,
            final(self).now_ms == old(self).now_ms,
            cres(r, final(self).st()) == c_keyword(old(self).sch(), old(self).st(), field@, pattern@, kind),
            r is Err ==> nothing_emitted(old(self).st(), final(self).st()),
    {
        if implicit_date(field.as_str()) {
            if kind != KeywordPatternKind::Exact {
                return Err(MinistoreError::TypeMismatch {
                    field,
                    message: String::from_str("wildcards not supported for implicit date fields"),
                });
            }
            let ms = parse_date_to_epoch_ms(pattern.as_str())?;
            let name = self.next_cte_name();
            let p = self.push_param(SqlValue::Integer(ms));
            let mut sql = concat("SELECT id AS item_id FROM items WHERE ", implicit_column(field.as_str()).as_str());
            sql.append(" = ");
            sql.append(p.as_str());
            let mut ex = concat("IMPLICIT DATE ", field.as_str());
            ex.append(":");
            ex.append(pattern.as_str());
            self.push_cte(name.clone(), sql, ex);
            return Ok(name);
        }
        let schema = self.schema;
        let spec = match schema.get(field.as_str()) {
            Some(spec) => spec,
            None => return Err(MinistoreError::UnknownField(field)),
        };
        if spec.field_type == FieldType::Text {
            return self.compile_text(Some(field), pattern);
        }
        if spec.field_type == FieldType::Bool && (str_eq(pattern.as_str(), "true") || str_eq(pattern.as_str(), "false")) {
            let value = str_eq(pattern.as_str(), "true");
            return self.compile_bool(field, value);
        }
        if spec.field_type == FieldType::Date {
            if kind != KeywordPatternKind::Exact {
                return Err(MinistoreError::TypeMismatch {
                    field,
                    message: String::from_str("wildcards not supported for date fields; use comparisons"),
                });
            }
            let ms = parse_date_to_epoch_ms(pattern.as_str())?;
            return self.compile_date_abs(field, CmpOp::Eq, ms);
        }
        if spec.field_type != FieldType::Keyword {
            return Err(MinistoreError::TypeMismatch {
                field,
                message: concat("predicate is keyword-style but schema type is ", field_type_name(spec.field_type).as_str()),
            });
        }
        let name = self.next_cte_name();
        let v = chars_of(pattern.as_str());
        let (test, value) = match kind {
            KeywordPatternKind::Exact => (String::from_str("="), pattern.clone()),
            KeywordPatternKind::Prefix => {
                let ghost pv = pattern@;
                let e = trim_end_index(&v);
                let mut lit = string_of_range(&v, 0, e);
                lit.append("%");
                (String::from_str("LIKE"), lit)
            },
            KeywordPatternKind::Contains => {
                let e = trim_end_index(&v);
                let b = trim_start_index(&v, e);
                let mut lit = String::from_str("%");
                lit.append(string_of_range(&v, b, e).as_str());
                lit.append("%");
                (String::from_str("LIKE"), lit)
            },
            KeywordPatternKind::Glob => (String::from_str("GLOB"), pattern.clone()),
        };
        let pf = self.push_param(SqlValue::Text(field.clone()));
        let pv = self.push_param(SqlValue::Text(value));
        let mut sql = concat("SELECT p.item_id FROM kw_dict d JOIN kw_postings p ON p.value_id = d.id WHERE d.field = ", pf.as_str());
        sql.append(" AND d.value ");
        sql.append(test.as_str());
        sql.append(" ");
        sql.append(pv.as_str());
        let mut ex = concat("KEYWORD ", field.as_str());
        ex.append(":");
        ex.append(pattern.as_str());
        self.push_cte(name.clone(), sql, ex);
        Ok(name)
    }


    fn compile_number(&mut self, field: String, op: CmpOp, value: String) -> (r: Result<String, MinistoreError>)
        ensures
            final(self).schema == old(self).schema,
            final(self).now_ms == old(self).now_ms,
            cres(r, final(self).st()) == c_number(old(self).sch(), old(self).st(), field@, op, value@),
            r is Err ==> nothing_emitted(old(self).st(), final(self).st()),
    {
        let schema = self.schema;
        let spec = match schema.get(field.as_str()) {
            Some(spec) => spec,
            None => return Err(MinistoreError::UnknownField(field)),
        };
        if spec.field_type != FieldType::Number {
            return Err(expected_type_error(&field, "number", spec.field_type));
        }
        let name = self.next_cte_name();
        let pf = self.push_param(SqlValue::Text(field.clone()));
        let pv = self.push_param(SqlValue::Real(value.clone()));
        let mut sql = concat("SELECT item_id FROM field_number WHERE field = ", pf.as_str());
        sql.append(" AND value ");
        sql.append(op_text(op).as_str());
        sql.append(" ");
        sql.append(pv.as_str());
        let mut ex = concat("NUMBER ", field.as_str());
        ex.append(op_text(op).as_str());
        ex.append(value.as_str());
        self.push_cte(name.clone(), sql, ex);
        Ok(name)
    }

    fn compile_number_range(&mut self, field: String, lo: String, hi: String) -> (r: Result<String, MinistoreError>)
        ensures
            final(self).schema == old(self).schema,
            final(self).now_ms == old(self).now_ms,
            cres(r, final(self).st()) == c_number_range(old(self).sch(), old(self).st(), field@, lo@, hi@),
            r is Err ==> nothing_emitted(old(self).st(), final(self).st()),
    {
        let schema = self.schema;
        let spec = match schema.get(field.as_str()) {
            Some(spec) => spec,
            None => return Err(MinistoreError::UnknownField(field)),
        };
        if spec.field_type != FieldType::Number {
            return Err(expected_type_error(&field, "number", spec.field_type));
        }
        let name = self.next_cte_name();
        let pf = self.push_param(SqlValue::Text(field.clone()));
        let plo = self.push_param(SqlValue::Real(lo.clone()));
        let phi = self.push_param(SqlValue::Real(hi.clone()));
        let mut sql = concat("SELECT item_id FROM field_number WHERE field = ", pf.as_str());
        sql.append(" AND value >= ");
        sql.append(plo.as_str());
        sql.append(" AND value <= ");
        sql.append(phi.as_str());
        let mut ex = concat("NUMBER ", field.as_str());
        ex.append(":");
        ex.append(lo.as_str());
        ex.append("..");
        ex.append(hi.as_str());
        self.push_cte(name.clone(), sql, ex);
        Ok(name)
    }

    fn compile_date_range(&mut self, field: String, lo: i64, hi: i64) -> (r: Result<String, MinistoreError>)
        ensures
            final(self).schema == old(self).schema,
            final(self).now_ms == old(self).now_ms,
            cres(r, final(self).st()) == c_date_range(old(self).sch(), old(self).st(), field@, lo, hi),
            r is Err ==> nothing_emitted(old(self).st(), final(self).st()),
    {
        if implicit_date(field.as_str()) {
            let name = self.next_cte_name();
            let col = implicit_column(field.as_str());
            let plo = self.push_param(SqlValue::Integer(lo));
            let phi = self.push_param(SqlValue::Integer(hi));
            let mut sql = concat("SELECT id AS item_id FROM items WHERE ", col.as_str());
            sql.append(" >= ");
            sql.append(plo.as_str());
            sql.append(" AND ");
            sql.append(col.as_str());
            sql.append(" <= ");
            sql.append(phi.as_str());
            let mut ex = concat("IMPLICIT DATE RANGE ", field.as_str());
            ex.append(":");
            ex.append(i64_decimal(lo).as_str());
            ex.append("..");
            ex.append(i64_decimal(hi).as_str());
            self.push_cte(name.clone(), sql, ex);
            return Ok(name);
        }
        let schema = self.schema;
        let spec = match schema.get(field.as_str()) {
            Some(spec) => spec,
            None => return Err(MinistoreError::UnknownField(field)),
        };
        if spec.field_type != FieldType::Date {
            return Err(expected_type_error(&field, "date", spec.field_type));
        }
        let name = self.next_cte_name();
        let pf = self.push_param(SqlValue::Text(field.clone()));
        let plo = self.push_param(SqlValue::Integer(lo));
        let phi = self.push_param(SqlValue::Integer(hi));
        let mut sql = concat("SELECT item_id FROM field_date WHERE field = ", pf.as_str());
        sql.append(" AND value >= ");
        sql.append(plo.as_str());
        sql.append(" AND value <= ");
        sql.append(phi.as_str());
        let mut ex = concat("DATE ", field.as_str());
        ex.append(":");
        ex.append(i64_decimal(lo).as_str());
        ex.append("..");
        ex.append(i64_decimal(hi).as_str());
        self.push_cte(name.clone(), sql, ex);
        Ok(name)
    }

    fn compile_date_rel(&mut self, field: String, op: CmpOp, amount: i64, unit: RelUnit) -> (r: Result<String, MinistoreError>)
        requires
            fits_i64(amount * unit_ms(unit)),
            fits_i64(rel_target(field@, amount, unit, old(self).now_ms)),
        ensures
            final(self).schema == old(self).schema,
            final(self).now_ms == old(self).now_ms,
            cres(r, final(self).st()) == c_date_rel(old(self).sch(), old(self).st(), old(self).now_ms, field@, op, amount, unit),
            r is Err ==> nothing_emitted(old(self).st(), final(self).st()),
    {
        let duration = amount * unit_millis(unit);
        let implicit = implicit_date(field.as_str());
        let target = if implicit { self.now_ms - duration } else { self.now_ms + duration };
        let mut ex = String::new();
        if implicit {
            let name = self.next_cte_name();
            let mop = age_operator(op);
            let p = self.push_param(SqlValue::Integer(target));
            let mut sql = concat("SELECT id AS item_id FROM items WHERE ", implicit_column(field.as_str()).as_str());
            sql.append(" ");
            sql.append(op_text(mop).as_str());
            sql.append(" ");
            sql.append(p.as_str());
            ex.append("DATE(rel-age) ");
            ex.append(field.as_str());
            ex.append(op_text(mop).as_str());
            ex.append(i64_decimal(amount).as_str());
            ex.append(unit_text(unit).as_str());
            self.push_cte(name.clone(), sql, ex);
            return Ok(name);
        }
        let schema = self.schema;
        let spec = match schema.get(field.as_str()) {
            Some(spec) => spec,
            None => return Err(MinistoreError::UnknownField(field)),
        };
        if spec.field_type != FieldType::Date {
            return Err(expected_type_error(&field, "date", spec.field_type));
        }
        let name = self.next_cte_name();
        let pf = self.push_param(SqlValue::Text(field.clone()));
        let pv = self.push_param(SqlValue::Integer(target));
        let mut sql = concat("SELECT item_id FROM field_date WHERE field = ", pf.as_str());
        sql.append(" AND value ");
        sql.append(op_text(op).as_str());
        sql.append(" ");
        sql.append(pv.as_str());
        ex.append("DATE(rel) ");
        ex.append(field.as_str());
        ex.append(op_text(op).as_str());
        ex.append(i64_decimal(amount).as_str());
        ex.append(unit_text(unit).as_str());
        self.push_cte(name.clone(), sql, ex);
        Ok(name)
    }

    fn compile_predicate(&mut self, pred: Predicate) -> (r: Result<String, MinistoreError>)
        requires
            rel_in_range(SExpr::Pred(pred@), old(self).now_ms),
        ensures
            final(self).schema == old(self).schema,
            final(self).now_ms == old(self).now_ms,
            cres(r, final(self).st()) == c_pred(old(self).sch(), old(self).now_ms, old(self).st(), pred@),
            r is Err ==> nothing_emitted(old(self).st(), final(self).st()),
    {
        match pred {
            Predicate::Has { field } => self.compile_has(field),
            Predicate::PathGlob { pattern } => Ok(self.compile_path(pattern)),
            Predicate::Keyword { field, pattern, kind } => self.compile_keyword(field, pattern, kind),
            Predicate::Text { field, fts } => self.compile_text(field, fts),
            Predicate::NumberCmp { field, op, value } => self.compile_number(field, op, value),
            Predicate::NumberRange { field, lo, hi } => self.compile_number_range(field, lo, hi),
            Predicate::DateCmpAbs { field, op, epoch_ms } => self.compile_date_abs(field, op, epoch_ms),
            Predicate::DateRangeAbs { field, lo_ms, hi_ms } => self.compile_date_range(field, lo_ms, hi_ms),
            Predicate::DateCmpRel { field, op, amount, unit } => self.compile_date_rel(field, op, amount, unit),
            Predicate::Bool { field, value } => self.compile_bool(field, value),
        }
    }

    fn combine(&mut self, left: String, right: String, set_op: &str, word: &str) -> (r: String)
        ensures
            final(self).schema == old(self).schema,
            final(self).now_ms == old(self).now_ms,
            r@ == next_name(old(self).st()),
            final(self).st() == finish(old(self).st(), r@, set_sql(set_op@, left@, right@),
                set_explain(set_op@, word@, left@, right@)),
    {
        let name = self.next_cte_name();
        let mut sql = concat("SELECT item_id FROM ", left.as_str());
        sql.append(" ");
        sql.append(set_op);
        sql.append(" SELECT item_id FROM ");
        sql.append(right.as_str());
        let mut ex = concat(set_op, " ");
        ex.append(left.as_str());
        ex.append(" ");
        ex.append(word);
        ex.append(" ");
        ex.append(right.as_str());
        self.push_cte(name.clone(), sql, ex);
        name
    }

    fn compile_expr(&mut self, expr: Expr) -> (r: Result<String, MinistoreError>)
        requires
            rel_in_range(expr_view(expr), old(self).now_ms),
        ensures
            final(self).schema == old(self).schema,
            final(self).now_ms == old(self).now_ms,
            cres(r, final(self).st()) == c_expr(old(self).sch(), old(self).now_ms, old(self).st(), expr_view(expr)),
        decreases expr,
    {
        match expr {
            Expr::And(l, r) => {
                let ln = self.compile_expr(*l)?;
                let rn = self.compile_expr(*r)?;
                Ok(self.combine(ln, rn, "INTERSECT", "AND"))
            },
            Expr::Or(l, r) => {
                let ln = self.compile_expr(*l)?;
                let rn = self.compile_expr(*r)?;
                Ok(self.combine(ln, rn, "UNION", "OR"))
            },
            Expr::Not(i) => {
                let iname = self.compile_expr(*i)?;
                let name = self.next_cte_name();
                let sql = concat("SELECT id AS item_id FROM items EXCEPT SELECT item_id FROM ", iname.as_str());
                let ex = concat("EXCEPT NOT ", iname.as_str());
                self.push_cte(name.clone(), sql, ex);
                Ok(name)
            },
            Expr::Pred(p) => self.compile_predicate(p),
        }
    }
}

/// Compile a query expression to common table expressions over the index
/// tables. Fails on an unknown field, a predicate that does not fit the type of
/// its field, a bad date, or a bare text query on a schema without text fields.
pub fn compile_to_ctes(schema: &Schema, expr: Expr, now_ms: i64) -> (r: Result<CompileOutput, MinistoreError>)
    requires
        rel_in_range(expr_view(expr), now_ms),
    ensures
        match (r, compile_spec(schema.entries(), expr_view(expr), now_ms)) {
            (Ok(out), Ok((st, name))) => out.result_cte_name@ == name
                && ctes_view(out.ctes@) == st.ctes
                && params_view(out.params@) == st.params
                && strings_view(out.explain_steps@) == st.explain
                && opt_view(out.fts_match) == st.fts_match
                && out.requires_fts_join == st.requires_fts,
            (Err(e), Err(x)) => e@ == x,
            _ => false,
        },
{
    let mut c = Compiler {
        schema,
        now_ms,
        ctes: Vec::new(),
        params: Vec::new(),
        explain: Vec::new(),
        fts_match: None,
        requires_fts_join: false,
    };
    proof {
        assert(ctes_view(c.ctes@) =~= seq![]);
        assert(params_view(c.params@) =~= seq![]);
        assert(strings_view(c.explain@) =~= seq![]);
    }
    let name = c.compile_expr(expr)?;
    Ok(CompileOutput {
        ctes: c.ctes,
        result_cte_name: name,
        fts_match: c.fts_match,
        params: c.params,
        explain_steps: c.explain,
        requires_fts_join: c.requires_fts_join,
    })
}

fn trim_end_index(v: &Vec<char>) -> (e: usize)
    ensures
        e <= v.len(),
        trim_end_star(v@) == v@.subrange(0, e as int),
{
    let mut e = v.len();
    assert(v@.subrange(0, e as int) == v@);
    while e > 0 && v[e - 1] == '*'
        invariant
            e <= v.len(),
            trim_end_star(v@) == trim_end_star(v@.subrange(0, e as int)),
        decreases e,
    {
        assert(v@.subrange(0, e as int).drop_last() == v@.subrange(0, e - 1));
        e -= 1;
    }
    e
}

fn trim_start_index(v: &Vec<char>, e: usize) -> (b: usize)
    requires
        e <= v.len(),
    ensures
        b <= e,
        trim_start_star(v@.subrange(0, e as int)) == v@.subrange(b as int, e as int),
{
    let mut b: usize = 0;
    assert(v@.subrange(0, e as int) == v@.subrange(b as int, e as int));
    while b < e && v[b] == '*'
        invariant
            b <= e <= v.len(),
            trim_start_star(v@.subrange(0, e as int)) == trim_start_star(v@.subrange(b as int, e as int)),
        decreases e - b,
    {
        assert(v@.subrange(b as int, e as int).drop_first() == v@.subrange(b + 1, e as int));
        b += 1;
    }
    b
}

} // verus!
