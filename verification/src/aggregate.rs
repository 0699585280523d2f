//! Counting, statistics and value discovery over the items a query matches:
//! the SQL each runs, and the shape of what it reports.
use vstd::prelude::*;
use crate::error::{ErrorView, MinistoreError};
use crate::json::{jv, jv_members, lemma_jv_members, JView, JsonNumber, JsonValue};
use crate::query::normalize::{normalize, normalize_spec};
use crate::query::parser::{parse_query, parse_spec};
use crate::query::planner::{
    implicit_col, is_implicit_date,
    compile_spec, compile_to_ctes, ctes_view, params_view, rel_in_range, strings_view, CState,
    CompileOutput, Cte, SqlValue, SqlView,
};
use crate::schema::{field_type_name, field_type_name_spec, lookup, FieldSpec, FieldType, SField, Schema};
use crate::search::{check_query_time, cte_part_list, cte_parts, join_with_commas, query_time_ok, with_clause};
use crate::text::{chars_of, concat, is_whitespace, spec_is_whitespace, str_eq};

verus! {

/// A query compiled at time `now`: parsed, normalized, compiled.
pub open spec fn compiled_query(sch: Seq<(Seq<char>, SField)>, query: Seq<char>, now: i64) -> Result<(CState, Seq<char>), ErrorView> {
    match parse_spec(query) {
        Err(e) => Err(e),
        Ok(e) => match normalize_spec(e) {
            Err(x) => Err(x),
            Ok(n) => compile_spec(sch, n, now),
        },
    }
}

pub open spec fn compiled_view(r: Result<CompileOutput, MinistoreError>) -> Result<(CState, Seq<char>), ErrorView> {
    match r {
        Ok(c) => Ok((
            CState {
                ctes: ctes_view(c.ctes@),
                params: params_view(c.params@),
                explain: strings_view(c.explain_steps@),
                fts_match: match c.fts_match {
                    Some(s) => Some(s@),
                    None => None,
                },
                requires_fts: c.requires_fts_join,
            },
            c.result_cte_name@,
        )),
        Err(e) => Err(e@),
    }
}

/// Parse, normalize and compile a query at time `now_ms`.
pub fn compile_query(schema: &Schema, query: &str, now_ms: i64) -> (r: Result<CompileOutput, MinistoreError>)
    requires
        query_time_ok(query@, now_ms),
    ensures
        compiled_view(r) == compiled_query(schema.entries(), query@, now_ms),
{
    let expr = parse_query(query)?;
    let normalized = normalize(expr)?;
    compile_to_ctes(schema, normalized, now_ms)
}

/// The `WITH ...` clause of compiled CTEs, or nothing.
pub fn ctes_with(ctes: &Vec<Cte>) -> (r: String)
    ensures
        r@ == with_clause(cte_parts(ctes_view(ctes@))),
{
    let parts = cte_part_list(ctes);
    if parts.len() == 0 {
        String::new()
    } else {
        let mut w = concat("WITH ", join_with_commas(&parts).as_str());
        w.append(" ");
        w
    }
}

/// A text that holds nothing but white space.
pub open spec fn blank(s: Seq<char>) -> bool {
    forall|i: int| 0 <= i < s.len() ==> spec_is_whitespace(#[trigger] s[i])
}

/// Whether `s.trim()` is empty.
pub fn is_blank(s: &str) -> (r: bool)
    ensures
        r == blank(s@),
{
    let v = chars_of(s);
    let mut i: usize = 0;
    while i < v.len()
        invariant
            i <= v.len(),
            v@ == s@,
            forall|k: int| 0 <= k < i ==> spec_is_whitespace(#[trigger] v@[k]),
        decreases v.len() - i,
    {
        if !is_whitespace(v[i]) {
            return false;
        }
        i += 1;
    }
    true
}

/// The scope of a statistic or a discovery: a query that is not blank.
pub open spec fn scope_of(scoped: Option<Seq<char>>) -> Option<Seq<char>> {
    match scoped {
        Some(q) => if blank(q) { None } else { Some(q) },
        None => None,
    }
}

pub open spec fn opt_str(o: Option<&str>) -> Option<Seq<char>> {
    match o {
        Some(s) => Some(s@),
        None => None,
    }
}

/// A statement and its parameters.
#[derive(Debug)]
pub struct SqlQuery {
    pub sql: String,
    pub params: Vec<SqlValue>,
}

pub open spec fn query_view(r: Result<SqlQuery, MinistoreError>) -> Result<(Seq<char>, Seq<SqlView>), ErrorView> {
    match r {
        Ok(q) => Ok((q.sql@, params_view(q.params@))),
        Err(e) => Err(e@),
    }
}

/// The count of items a query matches.
pub open spec fn count_spec(sch: Seq<(Seq<char>, SField)>, query: Seq<char>, now: i64) -> Result<(Seq<char>, Seq<SqlView>), ErrorView> {
    match compiled_query(sch, query, now) {
        Err(e) => Err(e),
        Ok((st, name)) => Ok((with_clause(cte_parts(st.ctes)) + " SELECT COUNT(*) FROM "@ + name, st.params)),
    }
}

/// The SQL that counts the items a query matches.
pub fn count_query(schema: &Schema, query: &str, now_ms: i64) -> (r: Result<SqlQuery, MinistoreError>)
    requires
        query_time_ok(query@, now_ms),
    ensures
        query_view(r) == count_spec(schema.entries(), query@, now_ms),
{
    let c = compile_query(schema, query, now_ms)?;
    let mut sql = ctes_with(&c.ctes);
    sql.append(" SELECT COUNT(*) FROM ");
    sql.append(c.result_cte_name.as_str());
    Ok(SqlQuery { sql, params: c.params })
}

/// The ids of the items a query matches.
pub open spec fn ids_spec(sch: Seq<(Seq<char>, SField)>, query: Seq<char>, now: i64) -> Result<(Seq<char>, Seq<SqlView>), ErrorView> {
    match compiled_query(sch, query, now) {
        Err(e) => Err(e),
        Ok((st, name)) => Ok((with_clause(cte_parts(st.ctes)) + " SELECT item_id FROM "@ + name, st.params)),
    }
}

/// The SQL that lists the ids of the items a query matches.
pub fn matching_ids_query(schema: &Schema, query: &str, now_ms: i64) -> (r: Result<SqlQuery, MinistoreError>)
    requires
        query_time_ok(query@, now_ms),
    ensures
        query_view(r) == ids_spec(schema.entries(), query@, now_ms),
{
    let c = compile_query(schema, query, now_ms)?;
    let mut sql = ctes_with(&c.ctes);
    sql.append(" SELECT item_id FROM ");
    sql.append(c.result_cte_name.as_str());
    Ok(SqlQuery { sql, params: c.params })
}


/// The scope of a statistic can be compiled at `now`.
pub open spec fn scope_time_ok(scoped: Option<Seq<char>>, now: i64) -> bool {
    match scope_of(scoped) {
        Some(q) => query_time_ok(q, now),
        None => true,
    }
}

/// The table that holds the values of a field statistics run on.
pub open spec fn stats_table(t: FieldType) -> Option<Seq<char>> {
    if t == FieldType::Number {
        Some("field_number"@)
    } else if t == FieldType::Date {
        Some("field_date"@)
    } else {
        None
    }
}

/// The statement that computes count, minimum, maximum and average of a
/// number or date field, or of the creation or update time of items, over all
/// items or those a (non-blank) query matches; and whether the field is one of
/// the item times.
pub open spec fn stats_spec(sch: Seq<(Seq<char>, SField)>, field: Seq<char>, scoped: Option<Seq<char>>, now: i64) -> Result<(Seq<char>, Seq<SqlView>, bool), ErrorView> {
    if is_implicit_date(field) {
        let col = implicit_col(field);
        match scope_of(scoped) {
            Some(q) => match compiled_query(sch, q, now) {
                Err(e) => Err(e),
                Ok((st, name)) => Ok((
                    with_clause(cte_parts(st.ctes)) + "\n                     SELECT COUNT(*), MIN(i."@ + col + "), MAX(i."@ + col
                        + "), AVG(i."@ + col + ")\n                     FROM "@ + name
                        + " r\n                     JOIN items i ON i.id = r.item_id"@,
                    st.params,
                    true,
                )),
            },
            None => Ok(("SELECT COUNT(*), MIN("@ + col + "), MAX("@ + col + "), AVG("@ + col + ") FROM items"@, seq![], true)),
        }
    } else {
        match lookup(sch, field) {
            None => Err(ErrorView::UnknownField(field)),
            Some(spec) => match stats_table(spec.field_type) {
                None => Err(ErrorView::Schema("stats not supported for field type: "@ + field_type_name_spec(spec.field_type))),
                Some(table) => match scope_of(scoped) {
                    Some(q) => match compiled_query(sch, q, now) {
                        Err(e) => Err(e),
                        Ok((st, name)) => Ok((
                            with_clause(cte_parts(st.ctes))
                                + "\n                 SELECT COUNT(DISTINCT fv.item_id), MIN(fv.value), MAX(fv.value), AVG(fv.value)\n                 FROM "@
                                + name + " r\n                 JOIN "@ + table
                                + " fv ON fv.item_id = r.item_id\n                 WHERE fv.field = ?"@,
                            st.params.push(SqlView::Text(field)),
                            false,
                        )),
                    },
                    None => Ok((
                        "SELECT COUNT(*), MIN(value), MAX(value), AVG(value) FROM "@ + table + " WHERE field = ?1"@,
                        seq![SqlView::Text(field)],
                        false,
                    )),
                },
            },
        }
    }
}

/// The statement statistics run, and whether they are on an item time.
#[derive(Debug)]
pub struct StatsQuery {
    pub query: SqlQuery,
    pub implicit: bool,
}

fn push_text(params: &mut Vec<SqlValue>, s: &str)
    ensures
        params_view(final(params)@) == params_view(old(params)@).push(SqlView::Text(s@)),
{
    let ghost before = params@;
    params.push(SqlValue::Text(s.to_owned()));
    assert(params_view(params@) =~= params_view(before).push(SqlView::Text(s@)));
}

/// The statement that computes the statistics of a field.
pub fn stats_query(schema: &Schema, field: &str, scoped_query: Option<&str>, now_ms: i64) -> (r: Result<StatsQuery, MinistoreError>)
    requires
        scope_time_ok(opt_str(scoped_query), now_ms),
    ensures
        match (r, stats_spec(schema.entries(), field@, opt_str(scoped_query), now_ms)) {
            (Ok(q), Ok((sql, ps, imp))) => q.query.sql@ == sql && params_view(q.query.params@) == ps && q.implicit == imp,
            (Err(e), Err(x)) => e@ == x,
            _ => false,
        },
{
    let scope: Option<&str> = match scoped_query {
        Some(q) => if is_blank(q) { None } else { Some(q) },
        None => None,
    };
    if str_eq(field, "created") || str_eq(field, "updated") {
        let col = if str_eq(field, "created") { "created_at" } else { "updated_at" };
        match scope {
            Some(q) => {
                let c = compile_query(schema, q, now_ms)?;
                let mut sql = ctes_with(&c.ctes);
                sql.append("\n                     SELECT COUNT(*), MIN(i.");
                sql.append(col);
                sql.append("), MAX(i.");
                sql.append(col);
                sql.append("), AVG(i.");
                sql.append(col);
                sql.append(")\n                     FROM ");
                sql.append(c.result_cte_name.as_str());
                sql.append(" r\n                     JOIN items i ON i.id = r.item_id");
                return Ok(StatsQuery { query: SqlQuery { sql, params: c.params }, implicit: true });
            },
            None => {
                let mut sql = concat("SELECT COUNT(*), MIN(", col);
                sql.append("), MAX(");
                sql.append(col);
                sql.append("), AVG(");
                sql.append(col);
                sql.append(") FROM items");
                let params: Vec<SqlValue> = Vec::new();
                assert(params_view(params@) =~= seq![]);
                return Ok(StatsQuery { query: SqlQuery { sql, params }, implicit: true });
            },
        }
    }
    let spec = match schema.get(field) {
        Some(spec) => spec,
        None => return Err(MinistoreError::UnknownField(field.to_owned())),
    };
    let table = if spec.field_type == FieldType::Number {
        "field_number"
    } else if spec.field_type == FieldType::Date {
        "field_date"
    } else {
        return Err(MinistoreError::Schema(concat("stats not supported for field type: ", field_type_name(spec.field_type).as_str())));
    };
    match scope {
        Some(q) => {
            let c = compile_query(schema, q, now_ms)?;
            let mut sql = ctes_with(&c.ctes);
            sql.append("\n                 SELECT COUNT(DISTINCT fv.item_id), MIN(fv.value), MAX(fv.value), AVG(fv.value)\n                 FROM ");
            sql.append(c.result_cte_name.as_str());
            sql.append(" r\n                 JOIN ");
            sql.append(table);
            sql.append(" fv ON fv.item_id = r.item_id\n                 WHERE fv.field = ?");
            let mut params = c.params;
            push_text(&mut params, field);
            Ok(StatsQuery { query: SqlQuery { sql, params }, implicit: false })
        },
        None => {
            let mut sql = concat("SELECT COUNT(*), MIN(value), MAX(value), AVG(value) FROM ", table);
            sql.append(" WHERE field = ?1");
            let mut params: Vec<SqlValue> = Vec::new();
            assert(params_view(params@) =~= seq![]);
            push_text(&mut params, field);
            Ok(StatsQuery { query: SqlQuery { sql, params }, implicit: false })
        },
    }
}

/// A JSON number for an integer the library writes itself.
pub fn int_number(v: i64) -> (n: JsonNumber)
    ensures
        n.text@ == crate::text::int_decimal(v as int),
        n.float_text@ == crate::text::int_decimal(v as int),
{
    JsonNumber { text: crate::text::i64_decimal(v), float_text: crate::text::i64_decimal(v) }
}

/// The statistics object: field and count, and minimum, maximum and average.
/// On an item time every statistic is present (null where there is none); on
/// a schema field only those the database gave.
pub open spec fn stat_member(name: Seq<char>, v: Option<JView>, implicit: bool) -> Seq<(Seq<char>, JView)> {
    match v {
        Some(x) => seq![(name, x)],
        None => if implicit { seq![(name, JView::Null)] } else { seq![] },
    }
}

pub open spec fn stats_members(field: Seq<char>, implicit: bool, count: i64, min: Option<JView>, max: Option<JView>, avg: Option<JView>) -> Seq<(Seq<char>, JView)> {
    stat_member("avg"@, avg, implicit) + seq![("count"@, JView::Number(crate::text::int_decimal(count as int), crate::text::int_decimal(count as int)))]
        + seq![("field"@, JView::Str(field))] + stat_member("max"@, max, implicit) + stat_member("min"@, min, implicit)
}

pub open spec fn opt_jv(v: Option<JsonValue>) -> Option<JView> {
    match v {
        Some(x) => Some(jv(x)),
        None => None,
    }
}

fn push_stat(obj: &mut Vec<(String, JsonValue)>, name: &str, v: Option<JsonValue>, implicit: bool)
    ensures
        jv_members(final(obj)@) == jv_members(old(obj)@) + stat_member(name@, opt_jv(v), implicit),
{
    let ghost before = obj@;
    let ghost vv = opt_jv(v);
    match v {
        Some(x) => {
            let ghost xv = jv(x);
            obj.push((name.to_owned(), x));
            assert(obj@.drop_last() == before);
            assert(jv_members(obj@) =~= jv_members(before) + seq![(name@, xv)]);
        },
        None => if implicit {
            let e = (name.to_owned(), JsonValue::Null);
            assert(jv(e.1) == JView::Null);
            obj.push(e);
            assert(obj@.drop_last() == before);
            assert(jv_members(obj@) =~= jv_members(before) + seq![(name@, JView::Null)]);
        } else {
            assert(jv_members(obj@) =~= jv_members(before) + seq![]);
        },
    }
}

/// The statistics of a field as a JSON object, from what the statement gave:
/// the count, and each of minimum, maximum and average as a JSON value where
/// the database gave one.
pub fn stats_result(field: &str, implicit: bool, count: i64, min: Option<JsonValue>, max: Option<JsonValue>, avg: Option<JsonValue>) -> (r: JsonValue)
    ensures
        r@ == JView::Object(stats_members(field@, implicit, count, opt_jv(min), opt_jv(max), opt_jv(avg))),
{
    let mut obj: Vec<(String, JsonValue)> = Vec::new();
    assert(jv_members(obj@) =~= seq![]);
    push_stat(&mut obj, "avg", avg, implicit);
    let ghost b1 = obj@;
    let ghost cnt = JView::Number(crate::text::int_decimal(count as int), crate::text::int_decimal(count as int));
    let e1 = (String::from_str("count"), JsonValue::Number(int_number(count)));
    assert(jv(e1.1) == cnt);
    obj.push(e1);
    assert(obj@.drop_last() == b1);
    assert(jv_members(obj@) =~= jv_members(b1) + seq![("count"@, cnt)]);
    let ghost b2 = obj@;
    let e2 = (String::from_str("field"), JsonValue::String(field.to_owned()));
    assert(jv(e2.1) == JView::Str(field@));
    obj.push(e2);
    assert(obj@.drop_last() == b2);
    assert(jv_members(obj@) =~= jv_members(b2) + seq![("field"@, JView::Str(field@))]);
    push_stat(&mut obj, "max", max, implicit);
    push_stat(&mut obj, "min", min, implicit);
    assert(jv_members(obj@) =~= stats_members(field@, implicit, count, opt_jv(min), opt_jv(max), opt_jv(avg)));
    JsonValue::Object(obj)
}


/// The statement that finds the most frequent values of a keyword field, with
/// how many items have each: over the items a (non-blank) query matches, or
/// from the dictionary's document frequencies; at most `top` values, most
/// frequent first, then by value.
pub open spec fn discover_spec(sch: Seq<(Seq<char>, SField)>, field: Seq<char>, scoped: Option<Seq<char>>, top: usize, now: i64) -> Result<(Seq<char>, Seq<SqlView>), ErrorView> {
    match lookup(sch, field) {
        None => Err(ErrorView::UnknownField(field)),
        Some(spec) => if spec.field_type != FieldType::Keyword {
            Err(ErrorView::TypeMismatch { field, message: "discover_values only runs on keyword fields"@ })
        } else {
            match scope_of(scoped) {
                Some(q) => match compiled_query(sch, q, now) {
                    Err(e) => Err(e),
                    Ok((st, name)) => Ok((
                        with_clause(cte_parts(st.ctes))
                            + "\n                 SELECT kd.value, COUNT(DISTINCT kp.item_id) as cnt\n                 FROM "@ + name
                            + " r\n                 JOIN kw_postings kp ON kp.item_id = r.item_id\n                 JOIN kw_dict kd ON kd.id = kp.value_id\n                 WHERE kd.field = ? AND kd.value IS NOT NULL\n                 GROUP BY kd.value\n                 ORDER BY cnt DESC, kd.value ASC\n                 LIMIT ?"@,
                        st.params.push(SqlView::Text(field)).push(SqlView::Integer(top as i64)),
                    )),
                },
                None => if top > i64::MAX {
                    Err(ErrorView::InvalidArgument("top is too large"@))
                } else {
                    Ok((
                        "SELECT value, doc_freq FROM kw_dict WHERE field = ?1 ORDER BY doc_freq DESC, value ASC LIMIT ?2"@,
                        seq![SqlView::Text(field), SqlView::Integer(top as i64)],
                    ))
                },
            }
        },
    }
}

/// The statement that discovers the top values of a keyword field.
pub fn discover_query(schema: &Schema, field: &str, scoped_query: Option<&str>, top: usize, now_ms: i64) -> (r: Result<SqlQuery, MinistoreError>)
    requires
        scope_time_ok(opt_str(scoped_query), now_ms),
    ensures
        query_view(r) == discover_spec(schema.entries(), field@, opt_str(scoped_query), top, now_ms),
{
    let spec = match schema.get(field) {
        Some(spec) => spec,
        None => return Err(MinistoreError::UnknownField(field.to_owned())),
    };
    if spec.field_type != FieldType::Keyword {
        return Err(MinistoreError::TypeMismatch {
            field: field.to_owned(),
            message: String::from_str("discover_values only runs on keyword fields"),
        });
    }
    let scope: Option<&str> = match scoped_query {
        Some(q) => if is_blank(q) { None } else { Some(q) },
        None => None,
    };
    match scope {
        Some(q) => {
            let c = compile_query(schema, q, now_ms)?;
            let mut sql = ctes_with(&c.ctes);
            sql.append("\n                 SELECT kd.value, COUNT(DISTINCT kp.item_id) as cnt\n                 FROM ");
            sql.append(c.result_cte_name.as_str());
            sql.append(" r\n                 JOIN kw_postings kp ON kp.item_id = r.item_id\n                 JOIN kw_dict kd ON kd.id = kp.value_id\n                 WHERE kd.field = ? AND kd.value IS NOT NULL\n                 GROUP BY kd.value\n                 ORDER BY cnt DESC, kd.value ASC\n                 LIMIT ?");
            let mut params = c.params;
            push_text(&mut params, field);
            let ghost before = params@;
            let t: i64 = #[verifier::truncate] (top as i64);
            params.push(SqlValue::Integer(t));
            assert(params_view(params@) =~= params_view(before).push(SqlView::Integer(top as i64)));
            Ok(SqlQuery { sql, params })
        },
        None => {
            let t64: u64 = top as u64;
            if t64 > 9223372036854775807u64 {
                return Err(MinistoreError::InvalidArgument(String::from_str("top is too large")));
            }
            let params = vec![SqlValue::Text(field.to_owned()), SqlValue::Integer(t64 as i64)];
            assert(params_view(params@) =~= seq![SqlView::Text(field@), SqlView::Integer(top as i64)]);
            Ok(SqlQuery {
                sql: String::from_str("SELECT value, doc_freq FROM kw_dict WHERE field = ?1 ORDER BY doc_freq DESC, value ASC LIMIT ?2"),
                params,
            })
        },
    }
}

/// One entry of the field overview: document count, name, type and, for a
/// text field with a weight, that weight.
pub open spec fn overview_members(name: Seq<char>, f: SField, doc_count: i64, weight: Option<JView>) -> Seq<(Seq<char>, JView)> {
    seq![
        ("doc_count"@, JView::Number(crate::text::int_decimal(doc_count as int), crate::text::int_decimal(doc_count as int))),
        ("field"@, JView::Str(name)),
        ("type"@, JView::Str(field_type_name_spec(f.field_type))),
    ] + (if f.field_type == FieldType::Text && f.weight is Some && weight is Some {
        seq![("weight"@, weight->0)]
    } else {
        seq![]
    })
}

/// The overview entry of a field, given how many items have it and the JSON
/// number of its weight.
pub fn overview_entry(name: &str, spec: &FieldSpec, doc_count: i64, weight: Option<JsonNumber>) -> (r: JsonValue)
    ensures
        r@ == JView::Object(overview_members(name@, spec@, doc_count, match weight {
            Some(n) => Some(JView::Number(n.text@, n.float_text@)),
            None => None,
        })),
{
    let ghost wv = match &weight {
        Some(n) => Some(JView::Number(n.text@, n.float_text@)),
        None => None,
    };
    let mut obj: Vec<(String, JsonValue)> = Vec::new();
    let e0 = (String::from_str("doc_count"), JsonValue::Number(int_number(doc_count)));
    let e1 = (String::from_str("field"), JsonValue::String(name.to_owned()));
    let e2 = (String::from_str("type"), JsonValue::String(field_type_name(spec.field_type)));
    let ghost v0 = (e0.0@, jv(e0.1));
    let ghost v1 = (e1.0@, jv(e1.1));
    let ghost v2 = (e2.0@, jv(e2.1));
    obj.push(e0);
    obj.push(e1);
    obj.push(e2);
    proof {
        lemma_jv_members(obj@);
        assert(jv_members(obj@) =~= seq![v0, v1, v2]);
    }
    let ghost b = obj@;
    if spec.field_type == FieldType::Text && spec.weight.is_some() {
        match weight {
            Some(n) => {
                let e3 = (String::from_str("weight"), JsonValue::Number(n));
                let ghost v3 = (e3.0@, jv(e3.1));
                obj.push(e3);
                assert(obj@.drop_last() == b);
                assert(jv_members(obj@) =~= jv_members(b).push(v3));
            },
            None => {},
        }
    }
    assert(jv_members(obj@) =~= overview_members(name@, spec@, doc_count, wv));
    JsonValue::Object(obj)
}

/// The error for a query one of whose relative dates does not fit at the time
/// it runs.
pub open spec fn time_rejected() -> ErrorView {
    ErrorView::QueryRejected("relative date is out of range"@)
}

/// Whether the scope of a statistic or a discovery can be compiled at `now_ms`.
pub fn check_scope_time(scoped_query: Option<&str>, now_ms: i64) -> (r: Result<(), MinistoreError>)
    ensures
        r is Ok <==> scope_time_ok(opt_str(scoped_query), now_ms),
        r is Err ==> r->Err_0@ == time_rejected(),
{
    match scoped_query {
        Some(q) => if is_blank(q) {
            Ok(())
        } else {
            check_query_time(q, now_ms)
        },
        None => Ok(()),
    }
}

/// The SQL that counts the items a query matches at `now_ms`, or the error for
/// a relative date that does not fit then.
pub fn count_query_checked(schema: &Schema, query: &str, now_ms: i64) -> (r: Result<SqlQuery, MinistoreError>)
    ensures
        query_time_ok(query@, now_ms) ==> query_view(r) == count_spec(schema.entries(), query@, now_ms),
        !query_time_ok(query@, now_ms) ==> query_view(r) == Err::<(Seq<char>, Seq<SqlView>), ErrorView>(time_rejected()),
{
    check_query_time(query, now_ms)?;
    count_query(schema, query, now_ms)
}

/// The SQL that lists the items a query matches at `now_ms`, or the error for a
/// relative date that does not fit then.
pub fn matching_ids_query_checked(schema: &Schema, query: &str, now_ms: i64) -> (r: Result<SqlQuery, MinistoreError>)
    ensures
        query_time_ok(query@, now_ms) ==> query_view(r) == ids_spec(schema.entries(), query@, now_ms),
        !query_time_ok(query@, now_ms) ==> query_view(r) == Err::<(Seq<char>, Seq<SqlView>), ErrorView>(time_rejected()),
{
    check_query_time(query, now_ms)?;
    matching_ids_query(schema, query, now_ms)
}

/// The statistics query at `now_ms`, or the error for a scope whose relative
/// date does not fit then.
pub fn stats_query_checked(schema: &Schema, field: &str, scoped_query: Option<&str>, now_ms: i64) -> (r: Result<StatsQuery, MinistoreError>)
    ensures
        scope_time_ok(opt_str(scoped_query), now_ms) ==> match (r, stats_spec(schema.entries(), field@, opt_str(scoped_query), now_ms)) {
            (Ok(q), Ok((sql, ps, imp))) => q.query.sql@ == sql && params_view(q.query.params@) == ps && q.implicit == imp,
            (Err(e), Err(x)) => e@ == x,
            _ => false,
        },
        !scope_time_ok(opt_str(scoped_query), now_ms) ==> r is Err && r->Err_0@ == time_rejected(),
{
    check_scope_time(scoped_query, now_ms)?;
    stats_query(schema, field, scoped_query, now_ms)
}

/// The discovery query at `now_ms`, or the error for a scope whose relative
/// date does not fit then.
pub fn discover_query_checked(schema: &Schema, field: &str, scoped_query: Option<&str>, top: usize, now_ms: i64) -> (r: Result<SqlQuery, MinistoreError>)
    ensures
        scope_time_ok(opt_str(scoped_query), now_ms) ==> query_view(r) == discover_spec(schema.entries(), field@, opt_str(scoped_query), top, now_ms),
        !scope_time_ok(opt_str(scoped_query), now_ms) ==> query_view(r) == Err::<(Seq<char>, Seq<SqlView>), ErrorView>(time_rejected()),
{
    check_scope_time(scoped_query, now_ms)?;
    discover_query(schema, field, scoped_query, top, now_ms)
}

} // verus!
