//! Properties that hold across the library's operations.
use vstd::prelude::*;
use crate::cursor::PayloadView;
use crate::fts::{fields_kept, fts_columns_spec, names_of, own_column, own_columns, schema_change_spec};
use crate::item::{doc_path, members_or_empty};
use crate::json::JView;
use crate::query::normalize::{normalize_spec, positive_anchor};
use crate::schema::{field_check, field_name_ok, fields_check, reserved_name, weight_positive, lemma_lookup_at, lookup, name_lt, schema_check, sorted_names, text_fields_spec, SField, Schema};
use crate::search::{after_filter, expected_hash, fts_ranked, next_payload, plan_spec, cursor_mismatch, RankView, RankMode};
use crate::write::{freq_decrements, freq_increments};
use crate::put::{bool_value, date_items, field_phase, field_step, keyword_items, number_items, prepare_spec, text_phase, PutState};
use crate::query::ast::{SExpr, SPred};
use crate::query::planner::{set_sql, c_expr, c_pred, compile_spec, is_implicit_date, kw_sql, kw_value, next_name, placeholder, CState, SqlView};
use crate::query::ast::KeywordPatternKind;
use crate::schema::FieldType;
use crate::text::{is_digit_spec, nat_decimal};
use crate::number::{decimal_ok, eq_ignore_case, exponent_ok, float_syntax, lead_digits};
use crate::query::lexer::{lex_from, lex_spec, lex_step, number_end, starts_number, LexStep, SpecTok};

verus! {

/// A field added to a schema is found under its name with the spec it was
/// added with, and every other field is found as before.
pub proof fn law_schema_add_then_get(before: Schema, after: Schema, name: Seq<char>, spec: SField)
    requires
        after.field_map() == before.field_map().insert(name, spec),
    ensures
        lookup(after.entries(), name) == Some(spec),
        forall|m: Seq<char>| m != name ==> #[trigger] lookup(after.entries(), m) == lookup(before.entries(), m),
{
    assert(after.field_map().dom().contains(name));
    assert(after.field_map()[name] == spec);
    assert forall|m: Seq<char>| m != name implies #[trigger] lookup(after.entries(), m) == lookup(before.entries(), m) by {
        if lookup(before.entries(), m) is Some {
            assert(before.field_map().dom().contains(m));
            assert(after.field_map().dom().contains(m));
            assert(after.field_map()[m] == before.field_map()[m]);
        } else {
            assert(!before.field_map().dom().contains(m));
            assert(!after.field_map().dom().contains(m));
        }
    }
}

proof fn lemma_text_fields_from(e: Seq<(Seq<char>, SField)>, i: int)
    requires
        0 <= i < text_fields_spec(e).len(),
    ensures
        exists|k: int| 0 <= k < e.len() && #[trigger] e[k].0 == text_fields_spec(e)[i].0,
    decreases e.len(),
{
    if e.len() > 0 {
        let rest = text_fields_spec(e.drop_last());
        if i < rest.len() {
            lemma_text_fields_from(e.drop_last(), i);
            let k = choose|k: int| 0 <= k < e.drop_last().len() && #[trigger] e.drop_last()[k].0 == rest[i].0;
            assert(e[k].0 == text_fields_spec(e)[i].0);
        } else {
            assert(e[e.len() - 1].0 == text_fields_spec(e)[i].0);
        }
    }
}

/// The text fields come in strictly ascending order of name, so the full-text
/// columns have one fixed order for a schema.
pub proof fn law_text_fields_in_name_order(e: Seq<(Seq<char>, SField)>)
    requires
        sorted_names(e),
    ensures
        forall|i: int, j: int| 0 <= i < j < text_fields_spec(e).len() ==> name_lt(#[trigger] text_fields_spec(e)[i].0, #[trigger] text_fields_spec(e)[j].0),
    decreases e.len(),
{
    if e.len() > 0 {
        let d = e.drop_last();
        assert(sorted_names(d)) by {
            assert forall|a: int, b: int| 0 <= a < b < d.len() implies name_lt(#[trigger] d[a].0, #[trigger] d[b].0) by {
                assert(d[a] == e[a] && d[b] == e[b]);
            }
        }
        law_text_fields_in_name_order(d);
        let t = text_fields_spec(e);
        let r = text_fields_spec(d);
        assert forall|i: int, j: int| 0 <= i < j < t.len() implies name_lt(#[trigger] t[i].0, #[trigger] t[j].0) by {
            if j < r.len() {
                assert(t[i] == r[i] && t[j] == r[j]);
            } else {
                lemma_text_fields_from(d, i);
                let k = choose|k: int| 0 <= k < d.len() && #[trigger] d[k].0 == r[i].0;
                assert(t[i] == r[i]);
                assert(name_lt(e[k].0, e[e.len() - 1].0));
            }
        }
    }
}

/// A cursor the library hands out after a page is accepted when it continues
/// the same search: the condition that resumes after it can always be built.
pub proof fn law_next_cursor_accepted(rank: RankView, fts: bool, item_id: i64, path: Seq<char>, updated_at: i64, score: Option<Seq<char>>, n: nat)
    requires
        next_payload(rank, fts_ranked(rank, fts), item_id, path, updated_at, score) is Ok,
    ensures
        after_filter(rank, fts, next_payload(rank, fts_ranked(rank, fts), item_id, path, updated_at, score)->Ok_0, n) is Ok,
{
}

/// A cursor made for another schema, query or rank mode is refused before
/// anything else is checked.
pub proof fn law_foreign_cursor_refused(sch: Seq<(Seq<char>, SField)>, schema_json: Seq<char>, query: Seq<char>, rank: RankMode, limit: nat, payload: PayloadView, hash: Seq<char>, now: i64)
    requires
        hash != expected_hash(schema_json, query, rank),
    ensures
        plan_spec(sch, schema_json, query, rank, limit, Some((payload, hash)), now) == Err::<(Seq<char>, Seq<crate::query::planner::SqlView>, Seq<Seq<char>>, bool), crate::error::ErrorView>(cursor_mismatch()),
{
}

/// Storing an item changes the document frequency of a keyword value by one
/// up when the item newly has it, by one down when it no longer has it, and
/// not at all otherwise.
pub proof fn law_doc_freq_balance(old_ids: Seq<i64>, new_ids: Seq<i64>, v: i64)
    ensures
        freq_increments(old_ids, new_ids).contains(v) <==> (new_ids.contains(v) && !old_ids.contains(v)),
        freq_decrements(old_ids, new_ids).contains(v) <==> (old_ids.contains(v) && !new_ids.contains(v)),
{
    let pi = |x: i64| !old_ids.contains(x);
    let pd = |x: i64| !new_ids.contains(x);
    if freq_increments(old_ids, new_ids).contains(v) {
        new_ids.lemma_filter_contains_rev(pi, v);
        let k = choose|k: int| 0 <= k < new_ids.filter(pi).len() && new_ids.filter(pi)[k] == v;
        new_ids.lemma_filter_pred(pi, k);
    }
    if new_ids.contains(v) && !old_ids.contains(v) {
        let k = choose|k: int| 0 <= k < new_ids.len() && new_ids[k] == v;
        new_ids.lemma_filter_contains(pi, k);
    }
    if freq_decrements(old_ids, new_ids).contains(v) {
        old_ids.lemma_filter_contains_rev(pd, v);
        let k = choose|k: int| 0 <= k < old_ids.filter(pd).len() && old_ids.filter(pd)[k] == v;
        old_ids.lemma_filter_pred(pd, k);
    }
    if old_ids.contains(v) && !new_ids.contains(v) {
        let k = choose|k: int| 0 <= k < old_ids.len() && old_ids[k] == v;
        old_ids.lemma_filter_contains(pd, k);
    }
}

/// A short cursor token gives back the handle it was made from.
pub proof fn law_short_token_roundtrip(handle: Seq<char>)
    ensures
        ({
            let t = "c:"@ + handle;
            t.len() >= 2 && t[0] == 'c' && t[1] == ':' && t.skip(2) == handle
        }),
{
    reveal_strlit("c:");
    assert(("c:"@ + handle).skip(2) =~= handle);
}

/// The full-text table the library creates for a schema passes the column
/// check for that schema, where no text field is named like an FTS5
/// auxiliary column.
pub proof fn law_created_fts_columns_check(sch: Seq<(Seq<char>, SField)>)
    requires
        forall|i: int| 0 <= i < names_of(text_fields_spec(sch)).len() ==> own_column(#[trigger] names_of(text_fields_spec(sch))[i]),
    ensures
        fts_columns_spec(sch, names_of(text_fields_spec(sch))) is Ok,
{
    lemma_own_columns_keep(names_of(text_fields_spec(sch)));
}

proof fn lemma_own_columns_keep(cols: Seq<Seq<char>>)
    requires
        forall|i: int| 0 <= i < cols.len() ==> own_column(#[trigger] cols[i]),
    ensures
        own_columns(cols) == cols,
    decreases cols.len(),
{
    if cols.len() > 0 {
        lemma_own_columns_keep(cols.drop_last());
        assert(own_column(cols[cols.len() - 1]));
        assert(cols.drop_last().push(cols.last()) =~= cols);
    }
}


/// The CTEs are named `cte_0`, `cte_1`, ... in order.
pub open spec fn ctes_numbered(ctes: Seq<(Seq<char>, Seq<char>)>) -> bool {
    forall|i: int| 0 <= i < ctes.len() ==> #[trigger] ctes[i].0 == "cte_"@ + nat_decimal(i as nat)
}

/// What compiling one predicate does to the compiler state when it succeeds:
/// one CTE named `cte_<n>` after the CTEs before it, one explanation line, and
/// parameters only appended.
pub open spec fn grows_by_one(st: CState, r: Result<(CState, Seq<char>), crate::error::ErrorView>) -> bool {
    r is Ok ==> {
        let (st1, name) = r->Ok_0;
        &&& name == next_name(st)
        &&& st1.ctes.len() == st.ctes.len() + 1
        &&& st1.ctes.drop_last() =~= st.ctes
        &&& st1.ctes.last().0 == name
        &&& st1.explain.len() == st.explain.len() + 1
        &&& st1.explain.drop_last() =~= st.explain
        &&& st1.params.len() >= st.params.len()
        &&& st1.params.subrange(0, st.params.len() as int) =~= st.params
    }
}

proof fn lemma_grows_has(sch: Seq<(Seq<char>, SField)>, st: CState, f: Seq<char>)
    ensures grows_by_one(st, crate::query::planner::c_has(sch, st, f)),
{
}

proof fn lemma_grows_path(st: CState, pattern: Seq<char>)
    ensures grows_by_one(st, Ok(crate::query::planner::c_path(st, pattern))),
{
}

proof fn lemma_grows_text(sch: Seq<(Seq<char>, SField)>, st: CState, f: Option<Seq<char>>, fts: Seq<char>)
    ensures grows_by_one(st, crate::query::planner::c_text(sch, st, f, fts)),
{
}

proof fn lemma_grows_bool(sch: Seq<(Seq<char>, SField)>, st: CState, f: Seq<char>, v: bool)
    ensures grows_by_one(st, crate::query::planner::c_bool(sch, st, f, v)),
{
}

proof fn lemma_grows_date_abs(sch: Seq<(Seq<char>, SField)>, st: CState, f: Seq<char>, op: crate::query::ast::CmpOp, ms: i64)
    ensures grows_by_one(st, crate::query::planner::c_date_abs(sch, st, f, op, ms)),
{
}

proof fn lemma_grows_keyword(sch: Seq<(Seq<char>, SField)>, st: CState, f: Seq<char>, pattern: Seq<char>, kind: KeywordPatternKind)
    ensures grows_by_one(st, crate::query::planner::c_keyword(sch, st, f, pattern, kind)),
{
    lemma_grows_text(sch, st, Some(f), pattern);
    lemma_grows_bool(sch, st, f, pattern == "true"@);
    match crate::query::parser::query_date(pattern) {
        Ok(ms) => lemma_grows_date_abs(sch, st, f, crate::query::ast::CmpOp::Eq, ms),
        Err(_) => {},
    }
}

proof fn lemma_grows_number(sch: Seq<(Seq<char>, SField)>, st: CState, f: Seq<char>, op: crate::query::ast::CmpOp, v: Seq<char>)
    ensures grows_by_one(st, crate::query::planner::c_number(sch, st, f, op, v)),
{
}

proof fn lemma_grows_number_range(sch: Seq<(Seq<char>, SField)>, st: CState, f: Seq<char>, lo: Seq<char>, hi: Seq<char>)
    ensures grows_by_one(st, crate::query::planner::c_number_range(sch, st, f, lo, hi)),
{
}

proof fn lemma_grows_date_range(sch: Seq<(Seq<char>, SField)>, st: CState, f: Seq<char>, lo: i64, hi: i64)
    ensures grows_by_one(st, crate::query::planner::c_date_range(sch, st, f, lo, hi)),
{
}

proof fn lemma_grows_date_rel(sch: Seq<(Seq<char>, SField)>, st: CState, now: i64, f: Seq<char>, op: crate::query::ast::CmpOp, amount: i64, unit: crate::query::ast::RelUnit)
    ensures grows_by_one(st, crate::query::planner::c_date_rel(sch, st, now, f, op, amount, unit)),
{
}

/// A predicate that compiles adds exactly one CTE, named `cte_<n>` after the
/// CTEs before it, and one explanation line, and only appends parameters.
pub proof fn law_predicate_adds_one_cte(sch: Seq<(Seq<char>, SField)>, now: i64, st: CState, p: SPred)
    requires
        c_pred(sch, now, st, p) is Ok,
    ensures
        ({
            let (st1, name) = c_pred(sch, now, st, p)->Ok_0;
            &&& name == next_name(st)
            &&& st1.ctes.len() == st.ctes.len() + 1
            &&& st1.ctes.drop_last() == st.ctes
            &&& st1.ctes.last().0 == name
            &&& st1.explain.len() == st.explain.len() + 1
            &&& st1.explain.drop_last() == st.explain
            &&& st1.params.len() >= st.params.len()
            &&& st1.params.subrange(0, st.params.len() as int) == st.params
        }),
{
    match p {
        SPred::Has { field } => lemma_grows_has(sch, st, field),
        SPred::PathGlob { pattern } => lemma_grows_path(st, pattern),
        SPred::Keyword { field, pattern, kind } => lemma_grows_keyword(sch, st, field, pattern, kind),
        SPred::Text { field, fts } => lemma_grows_text(sch, st, field, fts),
        SPred::NumberCmp { field, op, value } => lemma_grows_number(sch, st, field, op, value),
        SPred::NumberRange { field, lo, hi } => lemma_grows_number_range(sch, st, field, lo, hi),
        SPred::DateCmpAbs { field, op, epoch_ms } => lemma_grows_date_abs(sch, st, field, op, epoch_ms),
        SPred::DateRangeAbs { field, lo_ms, hi_ms } => lemma_grows_date_range(sch, st, field, lo_ms, hi_ms),
        SPred::DateCmpRel { field, op, amount, unit } => lemma_grows_date_rel(sch, st, now, field, op, amount, unit),
        SPred::Bool { field, value } => lemma_grows_bool(sch, st, field, value),
    }
}

proof fn lemma_expr_ctes(sch: Seq<(Seq<char>, SField)>, now: i64, st: CState, e: SExpr)
    requires
        c_expr(sch, now, st, e) is Ok,
        ctes_numbered(st.ctes),
        st.explain.len() == st.ctes.len(),
    ensures
        ({
            let (st1, name) = c_expr(sch, now, st, e)->Ok_0;
            &&& ctes_numbered(st1.ctes)
            &&& st1.explain.len() == st1.ctes.len()
            &&& st1.ctes.len() > st.ctes.len()
            &&& st1.ctes.subrange(0, st.ctes.len() as int) == st.ctes
            &&& st1.ctes.last().0 == name
        }),
    decreases e,
{
    match e {
        SExpr::And(l, r) | SExpr::Or(l, r) => {
            lemma_expr_ctes(sch, now, st, *l);
            let (st1, _) = c_expr(sch, now, st, *l)->Ok_0;
            lemma_expr_ctes(sch, now, st1, *r);
            let (st2, _) = c_expr(sch, now, st1, *r)->Ok_0;
            let (st3, name) = c_expr(sch, now, st, e)->Ok_0;
            assert(st3.ctes == st2.ctes.push((name, st3.ctes.last().1)));
            assert(st3.ctes.subrange(0, st.ctes.len() as int) =~= st.ctes);
        },
        SExpr::Not(i) => {
            lemma_expr_ctes(sch, now, st, *i);
            let (st1, _) = c_expr(sch, now, st, *i)->Ok_0;
            let (st3, name) = c_expr(sch, now, st, e)->Ok_0;
            assert(st3.ctes.subrange(0, st.ctes.len() as int) =~= st.ctes);
        },
        SExpr::Pred(p) => {
            law_predicate_adds_one_cte(sch, now, st, p);
            let (st1, name) = c_pred(sch, now, st, p)->Ok_0;
            assert(st1.ctes.subrange(0, st.ctes.len() as int) =~= st.ctes);
            assert forall|i: int| 0 <= i < st1.ctes.len() implies #[trigger] st1.ctes[i].0 == "cte_"@ + nat_decimal(i as nat) by {
                if i < st.ctes.len() {
                    assert(st1.ctes[i] == st.ctes[i]);
                }
            }
        },
    }
}

/// A compiled query is a chain of CTEs named `cte_0`, `cte_1`, ... in order,
/// at least one, with one explanation line each, and its matching items are
/// those of the last.
pub proof fn law_compiled_ctes_chain(sch: Seq<(Seq<char>, SField)>, e: SExpr, now: i64)
    requires
        compile_spec(sch, e, now) is Ok,
    ensures
        ({
            let (st, name) = compile_spec(sch, e, now)->Ok_0;
            &&& ctes_numbered(st.ctes)
            &&& st.ctes.len() >= 1
            &&& st.explain.len() == st.ctes.len()
            &&& st.ctes.last().0 == name
        }),
{
    lemma_expr_ctes(sch, now, crate::query::planner::initial_state(), e);
}


pub open spec fn all_digits(s: Seq<char>) -> bool {
    forall|k: int| 0 <= k < s.len() ==> is_digit_spec(#[trigger] s[k])
}

proof fn lemma_lead_digits_all(s: Seq<char>)
    requires
        all_digits(s),
    ensures
        lead_digits(s) == s.len(),
    decreases s.len(),
{
    if s.len() > 0 {
        assert(all_digits(s.drop_first())) by {
            assert forall|k: int| 0 <= k < s.drop_first().len() implies is_digit_spec(#[trigger] s.drop_first()[k]) by {
                assert(s.drop_first()[k] == s[k + 1]);
            }
        }
        lemma_lead_digits_all(s.drop_first());
    }
}

proof fn lemma_lead_digits_stop(d: Seq<char>, rest: Seq<char>)
    requires
        all_digits(d),
        rest.len() > 0,
        !is_digit_spec(rest[0]),
    ensures
        lead_digits(d + rest) == d.len(),
    decreases d.len(),
{
    if d.len() > 0 {
        assert((d + rest).drop_first() =~= d.drop_first() + rest);
        assert(all_digits(d.drop_first())) by {
            assert forall|k: int| 0 <= k < d.drop_first().len() implies is_digit_spec(#[trigger] d.drop_first()[k]) by {
                assert(d.drop_first()[k] == d[k + 1]);
            }
        }
        lemma_lead_digits_stop(d.drop_first(), rest);
    } else {
        assert(d + rest =~= rest);
    }
}

/// The end of a number's digits after a dot: only digits follow.
proof fn lemma_number_end_after_dot(cs: Seq<char>, j: int)
    requires
        0 <= j <= cs.len(),
    ensures
        j <= number_end(cs, j, true) <= cs.len(),
        all_digits(cs.subrange(j, number_end(cs, j, true))),
    decreases cs.len() - j,
{
    if j < cs.len() && is_digit_spec(cs[j]) {
        lemma_number_end_after_dot(cs, j + 1);
        let e = number_end(cs, j + 1, true);
        assert forall|k: int| 0 <= k < cs.subrange(j, e).len() implies is_digit_spec(#[trigger] cs.subrange(j, e)[k]) by {
            if k > 0 {
                assert(cs.subrange(j, e)[k] == cs.subrange(j + 1, e)[k - 1]);
            }
        }
    }
}

/// The digits of a number: digits, then perhaps a dot and more digits.
proof fn lemma_number_end_shape(cs: Seq<char>, j: int)
    requires
        0 <= j <= cs.len(),
    ensures
        j <= number_end(cs, j, false) <= cs.len(),
        all_digits(cs.subrange(j, number_end(cs, j, false))) || exists|d: int| j <= d < number_end(cs, j, false)
            && cs[d] == '.' && all_digits(cs.subrange(j, d))
            && #[trigger] all_digits(cs.subrange(d + 1, number_end(cs, j, false))),
    decreases cs.len() - j,
{
    let e = number_end(cs, j, false);
    if j < cs.len() && is_digit_spec(cs[j]) {
        lemma_number_end_shape(cs, j + 1);
        if all_digits(cs.subrange(j + 1, e)) {
            assert forall|k: int| 0 <= k < cs.subrange(j, e).len() implies is_digit_spec(#[trigger] cs.subrange(j, e)[k]) by {
                if k > 0 {
                    assert(cs.subrange(j, e)[k] == cs.subrange(j + 1, e)[k - 1]);
                }
            }
        } else {
            let d = choose|d: int| j + 1 <= d < e && cs[d] == '.' && all_digits(cs.subrange(j + 1, d)) && #[trigger] all_digits(cs.subrange(d + 1, e));
            assert forall|k: int| 0 <= k < cs.subrange(j, d).len() implies is_digit_spec(#[trigger] cs.subrange(j, d)[k]) by {
                if k > 0 {
                    assert(cs.subrange(j, d)[k] == cs.subrange(j + 1, d)[k - 1]);
                }
            }
            assert(all_digits(cs.subrange(d + 1, e)));
        }
    } else if j < cs.len() && cs[j] == '.' && !(j + 1 < cs.len() && cs[j + 1] == '.') {
        lemma_number_end_after_dot(cs, j + 1);
        assert(all_digits(cs.subrange(j, j)));
        assert(all_digits(cs.subrange(j + 1, e)));
    } else {
        assert(all_digits(cs.subrange(j, e)));
    }
}

proof fn lemma_unsigned_number_is_float(t: Seq<char>)
    requires
        t.len() > 0,
        is_digit_spec(t[0]),
        all_digits(t) || exists|d: int| 0 <= d < t.len() && t[d] == '.' && all_digits(t.subrange(0, d)) && #[trigger] all_digits(t.subrange(d + 1, t.len() as int)),
    ensures
        decimal_ok(t),
        !eq_ignore_case(t, "inf"@),
        !eq_ignore_case(t, "infinity"@),
        !eq_ignore_case(t, "nan"@),
{
    reveal_strlit("inf");
    reveal_strlit("infinity");
    reveal_strlit("nan");
    if all_digits(t) {
        lemma_lead_digits_all(t);
        assert(t.skip(t.len() as int).len() == 0);
    } else {
        let d = choose|d: int| 0 <= d < t.len() && t[d] == '.' && all_digits(t.subrange(0, d)) && #[trigger] all_digits(t.subrange(d + 1, t.len() as int));
        assert(t == t.subrange(0, d) + t.subrange(d, t.len() as int));
        lemma_lead_digits_stop(t.subrange(0, d), t.subrange(d, t.len() as int));
        assert(t.skip(d + 1) == t.subrange(d + 1, t.len() as int));
        lemma_lead_digits_all(t.subrange(d + 1, t.len() as int));
        assert(d > 0) by {
            assert(t[0] != '.');
        }
        assert(t.skip(d + 1).skip(lead_digits(t.skip(d + 1)) as int).len() == 0);
    }
    if eq_ignore_case(t, "inf"@) {
        assert(crate::number::ascii_lower(t[0]) == 'i');
    }
    if eq_ignore_case(t, "infinity"@) {
        assert(crate::number::ascii_lower(t[0]) == 'i');
    }
    if eq_ignore_case(t, "nan"@) {
        assert(crate::number::ascii_lower(t[0]) == 'n');
    }
}

proof fn lemma_number_token_is_float(cs: Seq<char>, i: int)
    requires
        0 <= i < cs.len(),
        starts_number(cs, i),
    ensures
        float_syntax(cs.subrange(i, number_end(cs, if cs[i] == '-' { i + 1 } else { i }, false))),
{
    let j = if cs[i] == '-' { i + 1 } else { i };
    lemma_number_end_shape(cs, j);
    let e = number_end(cs, j, false);
    let s = cs.subrange(i, e);
    let t = cs.subrange(j, e);
    assert(e > j) by {
        assert(is_digit_spec(cs[j]));
        assert(number_end(cs, j, false) == number_end(cs, j + 1, false));
        lemma_number_end_shape(cs, j + 1);
    }
    if !all_digits(t) {
        let d = choose|d: int| j <= d < e && cs[d] == '.' && all_digits(cs.subrange(j, d)) && #[trigger] all_digits(cs.subrange(d + 1, e));
        assert(t[d - j] == '.');
        assert(t.subrange(0, d - j) == cs.subrange(j, d));
        assert(t.subrange(d - j + 1, t.len() as int) == cs.subrange(d + 1, e));
        assert(all_digits(t.subrange(d - j + 1, t.len() as int)));
    }
    lemma_unsigned_number_is_float(t);
    if cs[i] == '-' {
        assert(s.drop_first() == t);
    } else {
        assert(s == t);
    }
}

/// Every number the tokenizer reads is text that `str::parse::<f64>` accepts,
/// so the number a query holds is always a floating-point number.
pub proof fn law_lexed_numbers_are_floats(cs: Seq<char>, i: int)
    requires
        lex_from(cs, i) is Ok,
    ensures
        forall|k: int| 0 <= k < lex_from(cs, i)->Ok_0.len() ==> (#[trigger] lex_from(cs, i)->Ok_0[k] matches SpecTok::Number(s) ==> float_syntax(s)),
    decreases cs.len() - i,
{
    if 0 <= i < cs.len() {
        crate::query::lexer::lemma_lex_step_progress(cs, i);
        match lex_step(cs, i) {
            LexStep::Skip(j) => {
                law_lexed_numbers_are_floats(cs, j);
            },
            LexStep::Emit(t, j) => {
                law_lexed_numbers_are_floats(cs, j);
                if t matches SpecTok::Number(_) {
                    lemma_number_token_is_float(cs, i);
                }
                let ts = lex_from(cs, j)->Ok_0;
                assert forall|k: int| 0 <= k < lex_from(cs, i)->Ok_0.len() implies (#[trigger] lex_from(cs, i)->Ok_0[k] matches SpecTok::Number(s) ==> float_syntax(s)) by {
                    if k > 0 {
                        assert(lex_from(cs, i)->Ok_0[k] == ts[k - 1]);
                    }
                }
            },
            LexStep::Fail(_) => {},
        }
    }
}

/// An item's storage document holds every member of the document it was read
/// from, with the same value: storing a valid document loses nothing.
pub proof fn law_storage_keeps_document(doc: JView, path: Seq<char>, not_object: Seq<char>, no_path: Seq<char>, stored: Seq<(Seq<char>, JView)>)
    requires
        doc_path(doc, not_object, no_path) == Ok::<Seq<char>, crate::error::ErrorView>(path),
        forall|n: Seq<char>| #[trigger] lookup(stored, n) == (if n == "path"@ {
            Some(JView::Str(path))
        } else {
            lookup(members_or_empty(doc), n)
        }),
    ensures
        forall|n: Seq<char>| #[trigger] lookup(stored, n) == lookup(members_or_empty(doc), n),
{
    assert forall|n: Seq<char>| #[trigger] lookup(stored, n) == lookup(members_or_empty(doc), n) by {
        if n == "path"@ {
            assert(lookup(members_or_empty(doc), "path"@) == Some(JView::Str(path)));
        }
    }
}

/// Whether every condition of a query stands under a `NOT`.
pub open spec fn only_negated(e: SExpr) -> bool
    decreases e,
{
    match e {
        SExpr::And(l, r) => only_negated(*l) && only_negated(*r),
        SExpr::Or(l, r) => only_negated(*l) && only_negated(*r),
        SExpr::Not(_) => true,
        SExpr::Pred(_) => false,
    }
}

proof fn lemma_only_negated_unanchored(e: SExpr)
    requires
        only_negated(e),
    ensures
        !positive_anchor(e),
    decreases e,
{
    match e {
        SExpr::And(l, r) => {
            lemma_only_negated_unanchored(*l);
            lemma_only_negated_unanchored(*r);
        },
        SExpr::Or(l, r) => {
            lemma_only_negated_unanchored(*l);
            lemma_only_negated_unanchored(*r);
        },
        _ => {},
    }
}

/// A query made only of negated conditions is refused: it has no positive
/// anchor.
pub proof fn law_pure_negative_refused(e: SExpr)
    requires
        only_negated(e),
    ensures
        normalize_spec(e) == Err::<SExpr, crate::error::ErrorView>(crate::error::ErrorView::QueryRejected(
            "query must have at least one positive anchor (FTS term, exact keyword match, or literal path prefix)"@,
        )),
{
    lemma_only_negated_unanchored(e);
}

proof fn lemma_fields_kept_self(cur: Seq<(Seq<char>, SField)>, e: Seq<(Seq<char>, SField)>)
    requires
        forall|i: int| 0 <= i < cur.len() ==> lookup(e, (#[trigger] cur[i]).0) == Some(cur[i].1),
    ensures
        fields_kept(cur, e) == Ok::<(), crate::error::ErrorView>(()),
    decreases cur.len(),
{
    if cur.len() > 0 {
        assert(lookup(e, cur[0].0) == Some(cur[0].1));
        assert forall|i: int| 0 <= i < cur.drop_first().len() implies lookup(e, (#[trigger] cur.drop_first()[i]).0) == Some(cur.drop_first()[i].1) by {
            assert(cur.drop_first()[i] == cur[i + 1]);
        }
        lemma_fields_kept_self(cur.drop_first(), e);
    }
}

/// Applying a valid schema to an index that already has it is accepted and
/// changes nothing: no column is added.
pub proof fn law_same_schema_change_is_empty(e: Seq<(Seq<char>, SField)>)
    requires
        sorted_names(e),
        schema_check(e) == Ok::<(), crate::error::ErrorView>(()),
    ensures
        schema_change_spec(e, e) == Ok::<Seq<Seq<char>>, crate::error::ErrorView>(Seq::empty()),
{
    assert forall|i: int| 0 <= i < e.len() implies lookup(e, (#[trigger] e[i]).0) == Some(e[i].1) by {
        lemma_lookup_at(e, i);
    }
    lemma_fields_kept_self(e, e);
    let ct = names_of(text_fields_spec(e));
    assert(ct.take(ct.len() as int) =~= ct);
    assert(ct.skip(ct.len() as int).map_values(|n: Seq<char>| crate::fts::add_column(n)) =~= Seq::<Seq<char>>::empty());
}

proof fn lemma_keyword_items_err(f: Seq<char>, a: Seq<JView>, acc: Seq<Seq<char>>)
    ensures
        keyword_items(f, a, acc) is Err ==> keyword_items(f, a, acc)->Err_0 is TypeMismatch,
    decreases a.len(),
{
    if a.len() > 0 {
        lemma_keyword_items_err(f, a.drop_first(), acc.push(if a[0] is Str { a[0]->Str_0 } else { seq![] }));
    }
}

proof fn lemma_number_items_err(f: Seq<char>, a: Seq<JView>, acc: Seq<Seq<char>>)
    ensures
        number_items(f, a, acc) is Err ==> number_items(f, a, acc)->Err_0 is TypeMismatch,
    decreases a.len(),
{
    if a.len() > 0 {
        match crate::put::number_item(a[0]) {
            Some(x) => lemma_number_items_err(f, a.drop_first(), acc.push(x)),
            None => {},
        }
    }
}

proof fn lemma_date_items_err(f: Seq<char>, a: Seq<JView>, acc: Seq<i64>)
    ensures
        date_items(f, a, acc) is Err ==> date_items(f, a, acc)->Err_0 is TypeMismatch,
    decreases a.len(),
{
    if a.len() > 0 {
        match a[0] {
            JView::Str(s) => match crate::put::doc_date(s) {
                Ok(ms) => lemma_date_items_err(f, a.drop_first(), acc.push(ms)),
                Err(_) => {},
            },
            _ => {},
        }
    }
}

proof fn lemma_field_step_err(o: Seq<(Seq<char>, JView)>, name: Seq<char>, f: SField, st: PutState)
    ensures
        field_step(o, name, f, st) is Err ==> field_step(o, name, f, st)->Err_0 is TypeMismatch,
{
    match lookup(o, name) {
        None => {},
        Some(v) => {
            if let JView::Array(a) = v {
                lemma_keyword_items_err(name, a, seq![]);
                lemma_number_items_err(name, a, seq![]);
                lemma_date_items_err(name, a, seq![]);
            }
        },
    }
}

proof fn lemma_field_phase_err(o: Seq<(Seq<char>, JView)>, e: Seq<(Seq<char>, SField)>, st: PutState)
    ensures
        field_phase(o, e, st) is Err ==> field_phase(o, e, st)->Err_0 is TypeMismatch,
    decreases e.len(),
{
    if e.len() > 0 {
        lemma_field_step_err(o, e[0].0, e[0].1, st);
        match field_step(o, e[0].0, e[0].1, st) {
            Err(_) => {},
            Ok(st1) => lemma_field_phase_err(o, e.drop_first(), st1),
        }
    }
}

proof fn lemma_text_phase_err(o: Seq<(Seq<char>, JView)>, cols: Seq<(Seq<char>, Seq<char>)>, tc: Seq<Option<Seq<char>>>, pr: Seq<Seq<char>>)
    ensures
        text_phase(o, cols, tc, pr) is Err ==> text_phase(o, cols, tc, pr)->Err_0 is TypeMismatch,
    decreases cols.len(),
{
    if cols.len() > 0 {
        let name = cols[0].0;
        match lookup(o, name) {
            None => lemma_text_phase_err(o, cols.drop_first(), tc.push(None), pr),
            Some(JView::Str(s)) => lemma_text_phase_err(o, cols.drop_first(), tc.push(Some(s)), pr.push(name)),
            Some(_) => {},
        }
    }
}

/// A document is refused with a schema error exactly when it is not an object
/// with a non-empty `path` string; every other refusal is a type mismatch of a
/// field's value.
pub proof fn law_put_error_classes(sch: Seq<(Seq<char>, SField)>, doc: JView)
    ensures
        doc_path(doc, "document must be a JSON object"@, "document must have 'path' string field"@) is Err ==> prepare_spec(sch, doc) is Err
            && prepare_spec(sch, doc)->Err_0 is Schema,
        doc_path(doc, "document must be a JSON object"@, "document must have 'path' string field"@) is Ok && prepare_spec(sch, doc) is Err
            ==> prepare_spec(sch, doc)->Err_0 is TypeMismatch,
{
    let o = members_or_empty(doc);
    lemma_text_phase_err(o, text_fields_spec(sch), seq![], seq![]);
    match text_phase(o, text_fields_spec(sch), seq![], seq![]) {
        Ok((tc, pr)) => {
            let st0 = PutState { text_cols: tc, keywords: seq![], numbers: seq![], dates: seq![], bools: seq![], present: pr };
            lemma_field_phase_err(o, sch, st0);
        },
        Err(_) => {},
    }
}

/// The field a predicate names, if it names one (a bare text term and a path
/// pattern name none).
pub open spec fn pred_field(p: SPred) -> Option<Seq<char>> {
    match p {
        SPred::Has { field } => Some(field),
        SPred::PathGlob { .. } => None,
        SPred::Keyword { field, .. } => Some(field),
        SPred::Text { field, .. } => field,
        SPred::NumberCmp { field, .. } => Some(field),
        SPred::NumberRange { field, .. } => Some(field),
        SPred::DateCmpAbs { field, .. } => Some(field),
        SPred::DateRangeAbs { field, .. } => Some(field),
        SPred::DateCmpRel { field, .. } => Some(field),
        SPred::Bool { field, .. } => Some(field),
    }
}

/// A predicate on a field the schema lacks (other than the implicit `created`
/// and `updated`) is refused as an unknown field; the compiler then adds no
/// CTE, parameter or explanation (`nothing_emitted` in its contract).
pub proof fn law_unknown_field_refused(sch: Seq<(Seq<char>, SField)>, now: i64, st: CState, p: SPred, f: Seq<char>)
    requires
        pred_field(p) == Some(f),
        !is_implicit_date(f),
        lookup(sch, f) is None,
    ensures
        c_pred(sch, now, st, p) == Err::<(CState, Seq<char>), crate::error::ErrorView>(crate::error::ErrorView::UnknownField(f)),
{
}

/// A keyword predicate on a keyword field adds the field name and the value to
/// match as its two parameters, and matches `d.value` with `=` for an exact
/// value, `LIKE` for a prefix (`value%`) or a substring (`%value%`), and `GLOB`
/// otherwise.
pub proof fn law_keyword_predicate(sch: Seq<(Seq<char>, SField)>, now: i64, st: CState, f: Seq<char>, pattern: Seq<char>, kind: KeywordPatternKind)
    requires
        lookup(sch, f) is Some,
        lookup(sch, f)->0.field_type == FieldType::Keyword,
        !is_implicit_date(f),
    ensures
        c_pred(sch, now, st, SPred::Keyword { field: f, pattern, kind }) is Ok,
        ({
            let (st1, name) = c_pred(sch, now, st, SPred::Keyword { field: f, pattern, kind })->Ok_0;
            let n = st.params.len();
            &&& name == next_name(st)
            &&& st1.params == st.params.push(SqlView::Text(f)).push(SqlView::Text(kw_value(pattern, kind).1))
            &&& st1.ctes == st.ctes.push((name, kw_sql(placeholder(n + 1), kw_value(pattern, kind).0, placeholder(n + 2))))
        }),
        kind == KeywordPatternKind::Exact ==> kw_value(pattern, kind).0 == "="@,
        kind == KeywordPatternKind::Prefix || kind == KeywordPatternKind::Contains ==> kw_value(pattern, kind).0 == "LIKE"@,
        kind == KeywordPatternKind::Glob ==> kw_value(pattern, kind).0 == "GLOB"@,
{
}

proof fn lemma_fields_check(e: Seq<(Seq<char>, SField)>)
    ensures
        fields_check(e) is Ok <==> forall|i: int| 0 <= i < e.len() ==> (#[trigger] field_check(e[i].0, e[i].1)) is Ok,
        fields_check(e) is Err ==> fields_check(e)->Err_0 is Schema,
    decreases e.len(),
{
    if e.len() > 0 {
        lemma_fields_check(e.drop_first());
        assert forall|i: int| 0 <= i < e.drop_first().len() implies #[trigger] e.drop_first()[i] == e[i + 1] by {}
        if fields_check(e) is Ok {
            assert forall|i: int| 0 <= i < e.len() implies (#[trigger] field_check(e[i].0, e[i].1)) is Ok by {
                if i > 0 {
                    assert(e.drop_first()[i - 1] == e[i]);
                }
            }
        }
        if forall|i: int| 0 <= i < e.len() ==> (#[trigger] field_check(e[i].0, e[i].1)) is Ok {
            assert(field_check(e[0].0, e[0].1) is Ok);
            assert forall|i: int| 0 <= i < e.drop_first().len() implies (#[trigger] field_check(e.drop_first()[i].0, e.drop_first()[i].1)) is Ok by {
                assert(e.drop_first()[i] == e[i + 1]);
                assert(field_check(e[i + 1].0, e[i + 1].1) is Ok);
            }
        }
    }
}

/// A schema is valid exactly when it has a field and every field has a name
/// of `[A-Za-z_][A-Za-z0-9_]*` other than `path`, `created` and `updated`,
/// and a weight only if it is a text field whose weight is positive; every
/// refusal is a schema error.
pub proof fn law_schema_valid_when(e: Seq<(Seq<char>, SField)>)
    ensures
        schema_check(e) is Ok <==> e.len() > 0 && forall|i: int| 0 <= i < e.len() ==> {
            let (name, f) = #[trigger] e[i];
            &&& field_name_ok(name)
            &&& !reserved_name(name)
            &&& (f.weight is Some ==> f.field_type == FieldType::Text && weight_positive(f.weight->0))
        },
        schema_check(e) is Err ==> schema_check(e)->Err_0 is Schema,
{
    lemma_fields_check(e);
    assert forall|i: int| 0 <= i < e.len() implies ((#[trigger] field_check(e[i].0, e[i].1)) is Ok <==> {
        let (name, f) = e[i];
        &&& field_name_ok(name)
        &&& !reserved_name(name)
        &&& (f.weight is Some ==> f.field_type == FieldType::Text && weight_positive(f.weight->0))
    }) by {}
    if schema_check(e) is Ok {
        assert forall|i: int| 0 <= i < e.len() implies {
            let (name, f) = #[trigger] e[i];
            &&& field_name_ok(name)
            &&& !reserved_name(name)
            &&& (f.weight is Some ==> f.field_type == FieldType::Text && weight_positive(f.weight->0))
        } by {
            assert(field_check(e[i].0, e[i].1) is Ok);
        }
    }
    if e.len() > 0 && forall|i: int| 0 <= i < e.len() ==> {
            let (name, f) = #[trigger] e[i];
            &&& field_name_ok(name)
            &&& !reserved_name(name)
            &&& (f.weight is Some ==> f.field_type == FieldType::Text && weight_positive(f.weight->0))
        } {
        assert forall|i: int| 0 <= i < e.len() implies (#[trigger] field_check(e[i].0, e[i].1)) is Ok by {
            let (name, f) = e[i];
            assert(field_name_ok(name) && !reserved_name(name));
        }
    }
}

/// A value of the wrong kind for its field: a text field that is not a
/// string, a boolean field that is neither a boolean nor `"true"`/`"false"`,
/// or an array of more than one value for a keyword, number or date field
/// that is not multi-valued.
pub open spec fn mistyped(f: SField, v: JView) -> bool {
    match f.field_type {
        FieldType::Text => !(v is Str),
        FieldType::Bool => bool_value(v) is None,
        _ => !f.multi && v is Array && v->Array_0.len() > 1,
    }
}

proof fn lemma_text_fields_has(e: Seq<(Seq<char>, SField)>, i: int)
    requires
        0 <= i < e.len(),
        e[i].1.field_type == FieldType::Text,
    ensures
        exists|j: int| 0 <= j < text_fields_spec(e).len() && #[trigger] text_fields_spec(e)[j].0 == e[i].0,
    decreases e.len(),
{
    if i < e.len() - 1 {
        lemma_text_fields_has(e.drop_last(), i);
        let j = choose|j: int| 0 <= j < text_fields_spec(e.drop_last()).len() && #[trigger] text_fields_spec(e.drop_last())[j].0 == e.drop_last()[i].0;
        assert(e.drop_last()[i] == e[i]);
        if e.last().1.field_type == FieldType::Text {
            assert(text_fields_spec(e)[j] == text_fields_spec(e.drop_last())[j]);
        }
        assert(text_fields_spec(e)[j].0 == e[i].0);
    } else {
        let n = text_fields_spec(e.drop_last()).len() as int;
        assert(text_fields_spec(e)[n].0 == e[i].0);
    }
}

proof fn lemma_text_phase_fails(o: Seq<(Seq<char>, JView)>, cols: Seq<(Seq<char>, Seq<char>)>, tc: Seq<Option<Seq<char>>>, pr: Seq<Seq<char>>, j: int)
    requires
        0 <= j < cols.len(),
        lookup(o, cols[j].0) is Some,
        !(lookup(o, cols[j].0)->0 is Str),
    ensures
        text_phase(o, cols, tc, pr) is Err,
    decreases cols.len(),
{
    if j > 0 {
        assert(cols.drop_first()[j - 1] == cols[j]);
        match lookup(o, cols[0].0) {
            None => lemma_text_phase_fails(o, cols.drop_first(), tc.push(None), pr, j - 1),
            Some(JView::Str(s)) => lemma_text_phase_fails(o, cols.drop_first(), tc.push(Some(s)), pr.push(cols[0].0), j - 1),
            Some(_) => {},
        }
    }
}

proof fn lemma_field_phase_fails(o: Seq<(Seq<char>, JView)>, e: Seq<(Seq<char>, SField)>, st: PutState, i: int)
    requires
        0 <= i < e.len(),
        lookup(o, e[i].0) is Some,
        mistyped(e[i].1, lookup(o, e[i].0)->0),
        e[i].1.field_type != FieldType::Text,
    ensures
        field_phase(o, e, st) is Err,
    decreases e.len(),
{
    if i > 0 {
        assert(e.drop_first()[i - 1] == e[i]);
        match field_step(o, e[0].0, e[0].1, st) {
            Err(_) => {},
            Ok(st1) => lemma_field_phase_fails(o, e.drop_first(), st1, i - 1),
        }
    }
}

/// A document with a path that holds a value of the wrong kind for one of
/// the schema's fields is refused, with a type mismatch.
pub proof fn law_mistyped_value_refused(sch: Seq<(Seq<char>, SField)>, doc: JView, i: int)
    requires
        doc_path(doc, "document must be a JSON object"@, "document must have 'path' string field"@) is Ok,
        0 <= i < sch.len(),
        lookup(members_or_empty(doc), sch[i].0) is Some,
        mistyped(sch[i].1, lookup(members_or_empty(doc), sch[i].0)->0),
    ensures
        prepare_spec(sch, doc) is Err,
        prepare_spec(sch, doc)->Err_0 is TypeMismatch,
{
    let o = members_or_empty(doc);
    law_put_error_classes(sch, doc);
    if sch[i].1.field_type == FieldType::Text {
        lemma_text_fields_has(sch, i);
        let j = choose|j: int| 0 <= j < text_fields_spec(sch).len() && #[trigger] text_fields_spec(sch)[j].0 == sch[i].0;
        lemma_text_phase_fails(o, text_fields_spec(sch), seq![], seq![], j);
    } else {
        match text_phase(o, text_fields_spec(sch), seq![], seq![]) {
            Ok((tc, pr)) => {
                let st0 = PutState { text_cols: tc, keywords: seq![], numbers: seq![], dates: seq![], bools: seq![], present: pr };
                lemma_field_phase_fails(o, sch, st0, i);
            },
            Err(_) => {},
        }
    }
}

/// `AND`, `OR` and `NOT` compile to one more CTE after their operands': the
/// `INTERSECT`, `UNION`, or `items EXCEPT` of the operands' CTEs, which come
/// before it in the chain.
pub proof fn law_combined_ctes(sch: Seq<(Seq<char>, SField)>, now: i64, st: CState, e: SExpr)
    requires
        c_expr(sch, now, st, e) is Ok,
        ctes_numbered(st.ctes),
        st.explain.len() == st.ctes.len(),
    ensures
        match e {
            SExpr::And(l, r) | SExpr::Or(l, r) => {
                let (st1, ln) = c_expr(sch, now, st, *l)->Ok_0;
                let (st2, rn) = c_expr(sch, now, st1, *r)->Ok_0;
                let (st3, name) = c_expr(sch, now, st, e)->Ok_0;
                let op = if e is And { "INTERSECT"@ } else { "UNION"@ };
                &&& st.ctes.len() < st1.ctes.len() < st2.ctes.len()
                &&& st2.ctes[st1.ctes.len() - 1].0 == ln
                &&& st2.ctes[st2.ctes.len() - 1].0 == rn
                &&& st3.ctes == st2.ctes.push((name, set_sql(op, ln, rn)))
            },
            SExpr::Not(i) => {
                let (st1, iname) = c_expr(sch, now, st, *i)->Ok_0;
                let (st3, name) = c_expr(sch, now, st, e)->Ok_0;
                &&& st.ctes.len() < st1.ctes.len()
                &&& st1.ctes[st1.ctes.len() - 1].0 == iname
                &&& st3.ctes == st1.ctes.push((name, "SELECT id AS item_id FROM items EXCEPT SELECT item_id FROM "@ + iname))
            },
            SExpr::Pred(_) => true,
        },
{
    match e {
        SExpr::And(l, r) | SExpr::Or(l, r) => {
            lemma_expr_ctes(sch, now, st, *l);
            let (st1, ln) = c_expr(sch, now, st, *l)->Ok_0;
            lemma_expr_ctes(sch, now, st1, *r);
            let (st2, rn) = c_expr(sch, now, st1, *r)->Ok_0;
            assert(st2.ctes.subrange(0, st1.ctes.len() as int)[st1.ctes.len() - 1] == st2.ctes[st1.ctes.len() - 1]);
        },
        SExpr::Not(i) => {
            lemma_expr_ctes(sch, now, st, *i);
        },
        SExpr::Pred(_) => {},
    }
}

} // verus!
