//! Search planning: the ranked, paged SELECT over a compiled query, cursors
//! that continue a page, and the shape of result items.
use vstd::prelude::*;
use crate::cursor::{
    hash_input, hash_query, hex_text, spec_sha256, CursorPayload, CursorPosition, PayloadView, RankModeSer,
};
use crate::item::{members_or_empty, ItemView};
use crate::json::{jv, jv_members, lemma_jv_members, obj_insert, JView, JsonValue};
use crate::query::ast::expr_view;
use crate::query::normalize::{normalize, normalize_spec};
use crate::query::parser::{parse_query, parse_spec};
use crate::query::planner::{compile_spec, compile_to_ctes, rel_in_range, relative_offsets_fit, strings_view as sv};
use crate::schema::sorted_names;
use crate::error::{ErrorView, MinistoreError};
use crate::query::planner::{
    ctes_view, params_view, placeholder, CompileOutput, Cte, SqlValue, SqlView,
};
use crate::schema::{lookup, pairs_view, text_fields_spec, FieldType, SField, Schema};
use crate::query::planner::strings_view;
use crate::text::{concat, nat_decimal, usize_decimal};

verus! {

/// How results are ordered.
#[derive(Debug, Clone, PartialEq)]
pub enum RankMode {
    /// Full-text relevance when the query has a full-text part, else recency.
    Default,
    /// Most recently updated first.
    Recency,
    /// By the value of a number or date field, highest first.
    Field(String),
    /// By item id.
    Unranked,
}

pub enum RankView {
    Default,
    Recency,
    Field(Seq<char>),
    Unranked,
}

impl View for RankMode {
    type V = RankView;

    open spec fn view(&self) -> RankView {
        match self {
            RankMode::Default => RankView::Default,
            RankMode::Recency => RankView::Recency,
            RankMode::Field(f) => RankView::Field(f@),
            RankMode::Unranked => RankView::Unranked,
        }
    }
}

/// `a, b, c`.
pub open spec fn join_comma(parts: Seq<Seq<char>>) -> Seq<char>
    decreases parts.len(),
{
    if parts.len() == 0 {
        seq![]
    } else if parts.len() == 1 {
        parts[0]
    } else {
        join_comma(parts.drop_last()) + ", "@ + parts.last()
    }
}

pub open spec fn cte_part(c: (Seq<char>, Seq<char>)) -> Seq<char> {
    c.0 + " AS ("@ + c.1 + ")"@
}

pub open spec fn cte_parts(ctes: Seq<(Seq<char>, Seq<char>)>) -> Seq<Seq<char>> {
    ctes.map_values(|c: (Seq<char>, Seq<char>)| cte_part(c))
}

/// `WITH a AS (...), b AS (...) `, or nothing without CTEs.
pub open spec fn with_clause(parts: Seq<Seq<char>>) -> Seq<char> {
    if parts.len() == 0 {
        seq![]
    } else {
        "WITH "@ + join_comma(parts) + " "@
    }
}

/// The CTE with the highest value of the rank field per item.
pub open spec fn rank_cte(table: Seq<char>, p: Seq<char>) -> Seq<char> {
    "rank_field AS (SELECT item_id, MAX(value) AS rank_value FROM "@ + table + " WHERE field = "@ + p
        + " GROUP BY item_id)"@
}

pub open spec fn weights_of(tf: Seq<(Seq<char>, Seq<char>)>) -> Seq<Seq<char>> {
    tf.map_values(|p: (Seq<char>, Seq<char>)| p.1)
}

/// The ORDER BY clause, the score expression and the joins of a rank mode.
pub struct Shape {
    pub order: Seq<char>,
    pub score: Seq<char>,
    pub fts_join: Seq<char>,
    pub extra_join: Seq<char>,
}

/// Whether results are ordered by full-text relevance.
pub open spec fn fts_ranked(rank: RankView, fts: bool) -> bool {
    rank is Default && fts
}

pub open spec fn shape(rank: RankView, fts: bool, tf: Seq<(Seq<char>, Seq<char>)>) -> Shape {
    if fts_ranked(rank, fts) {
        Shape {
            order: "ORDER BY score DESC, item_id ASC"@,
            score: "(-bm25(search, "@ + join_comma(weights_of(tf)) + "))"@,
            fts_join: "JOIN search ON search.rowid = i.id"@,
            extra_join: seq![],
        }
    } else {
        match rank {
            RankView::Field(_) => Shape {
                order: "ORDER BY score DESC, updated_at DESC, path ASC"@,
                score: "CAST(rank_field.rank_value AS REAL)"@,
                fts_join: seq![],
                extra_join: "JOIN rank_field ON rank_field.item_id = i.id"@,
            },
            RankView::Unranked => Shape {
                order: "ORDER BY item_id ASC"@,
                score: "NULL"@,
                fts_join: seq![],
                extra_join: seq![],
            },
            _ => Shape {
                order: "ORDER BY updated_at DESC, path ASC"@,
                score: "CAST(i.updated_at AS REAL)"@,
                fts_join: seq![],
                extra_join: seq![],
            },
        }
    }
}

pub open spec fn cursor_mismatch() -> ErrorView {
    ErrorView::Cursor("cursor does not match query/schema/rank"@)
}

/// The condition that keeps only rows after the cursor in the order of the rank
/// mode, with its parameters numbered from `n + 1`.
pub open spec fn after_filter(rank: RankView, fts: bool, p: PayloadView, n: nat) -> Result<(Seq<char>, Seq<SqlView>), ErrorView> {
    let a = placeholder(n + 1);
    let b = placeholder(n + 2);
    let c = placeholder(n + 3);
    if fts_ranked(rank, fts) {
        match p {
            PayloadView::Fts { score, item_id } => Ok((
                "(score < "@ + a + " OR (score = "@ + a + " AND item_id > "@ + b + "))"@,
                seq![SqlView::Real(score), SqlView::Integer(item_id)],
            )),
            _ => Err(cursor_mismatch()),
        }
    } else {
        match rank {
            RankView::Unranked => match p {
                PayloadView::Unranked { item_id } => Ok(("item_id > "@ + a, seq![SqlView::Integer(item_id)])),
                _ => Err(cursor_mismatch()),
            },
            RankView::Field(_) => match p {
                PayloadView::Field { rank_value, updated_at_ms, path, .. } => Ok((
                    "(score < "@ + a + " OR (score = "@ + a + " AND (updated_at < "@ + b + " OR (updated_at = "@ + b
                        + " AND path > "@ + c + "))))"@,
                    seq![SqlView::Real(rank_value), SqlView::Integer(updated_at_ms), SqlView::Text(path)],
                )),
                _ => Err(cursor_mismatch()),
            },
            _ => match p {
                PayloadView::Recency { updated_at_ms, path } => Ok((
                    "(updated_at < "@ + a + " OR (updated_at = "@ + a + " AND path > "@ + b + "))"@,
                    seq![SqlView::Integer(updated_at_ms), SqlView::Text(path)],
                )),
                _ => Err(cursor_mismatch()),
            },
        }
    }
}

pub open spec fn select_cols() -> Seq<char> {
    "i.id AS item_id, i.path AS path, i.data_json AS data_json, i.created_at AS created_at, i.updated_at AS updated_at"@
}

/// The final SELECT: an inner query with the score, an outer one that applies
/// the cursor condition, the order and the limit.
pub open spec fn select_sql(with: Seq<char>, sh: Shape, result: Seq<char>, after_where: Seq<char>, limit: nat) -> Seq<char> {
    with + "\n         SELECT item_id, path, data_json, created_at, updated_at, score\n         FROM (\n           SELECT "@
        + select_cols() + ", "@ + sh.score + " AS score\n           FROM items i\n           "@ + sh.fts_join
        + "\n           "@ + sh.extra_join + "\n           JOIN "@ + result
        + " r ON r.item_id = i.id\n         ) q\n         WHERE 1=1 "@ + after_where + "\n         "@ + sh.order
        + "\n         LIMIT "@ + nat_decimal(limit)
}

/// The table that holds the values of a field a search ranks by.
pub open spec fn rank_table(sch: Seq<(Seq<char>, SField)>, rank: RankView) -> Result<Option<Seq<char>>, ErrorView> {
    match rank {
        RankView::Field(f) => match lookup(sch, f) {
            None => Err(ErrorView::UnknownField(f)),
            Some(spec) => if spec.field_type == FieldType::Number {
                Ok(Some("field_number"@))
            } else if spec.field_type == FieldType::Date {
                Ok(Some("field_date"@))
            } else {
                Err(ErrorView::TypeMismatch { field: f, message: "rank field must be number or date"@ })
            },
        },
        _ => Ok(None),
    }
}

/// The SQL and parameters of a search over a compiled query.
pub open spec fn search_sql_spec(
    sch: Seq<(Seq<char>, SField)>,
    ctes: Seq<(Seq<char>, Seq<char>)>,
    params: Seq<SqlView>,
    fts: bool,
    result: Seq<char>,
    rank: RankView,
    limit: nat,
    after: Option<PayloadView>,
) -> Result<(Seq<char>, Seq<SqlView>), ErrorView> {
    match rank_table(sch, rank) {
        Err(e) => Err(e),
        Ok(table) => {
            let params1 = match (table, rank) {
                (Some(_), RankView::Field(f)) => params.push(SqlView::Text(f)),
                _ => params,
            };
            let parts = match table {
                Some(t) => cte_parts(ctes).push(rank_cte(t, placeholder(params.len() + 1))),
                None => cte_parts(ctes),
            };
            let sh = shape(rank, fts, text_fields_spec(sch));
            match after {
                None => Ok((select_sql(with_clause(parts), sh, result, seq![], limit), params1)),
                Some(p) => match after_filter(rank, fts, p, params1.len()) {
                    Err(e) => Err(e),
                    Ok((f, ps)) => Ok((select_sql(with_clause(parts), sh, result, "AND ("@ + f + ")"@, limit), params1 + ps)),
                },
            }
        },
    }
}


/// `a, b, c`.
pub fn join_with_commas(parts: &Vec<String>) -> (r: String)
    ensures
        r@ == join_comma(strings_view(parts@)),
{
    let ghost sv = strings_view(parts@);
    let mut r = String::new();
    let mut i: usize = 0;
    while i < parts.len()
        invariant
            i <= parts.len(),
            sv == strings_view(parts@),
            r@ == join_comma(sv.take(i as int)),
        decreases parts.len() - i,
    {
        assert(sv.take(i + 1).drop_last() == sv.take(i as int));
        assert(sv.take(i + 1).last() == parts@[i as int]@);
        if i > 0 {
            r.append(", ");
        } else {
            assert(sv.take(1).len() == 1);
        }
        r.append(parts[i].as_str());
        i += 1;
    }
    assert(sv.take(parts.len() as int) == sv);
    r
}

fn cte_part_text(c: &Cte) -> (r: String)
    ensures
        r@ == cte_part((c.name@, c.sql@)),
{
    let mut r = c.name.clone();
    r.append(" AS (");
    r.append(c.sql.as_str());
    r.append(")");
    r
}

fn ph(n: usize) -> (r: String)
    ensures
        r@ == placeholder(n as nat),
{
    concat("?", usize_decimal(n).as_str())
}

fn rank_shape(rank: &RankMode, fts: bool, tf: &Vec<(String, String)>) -> (r: (String, String, String, String))
    ensures
        ({
            let sh = shape(rank@, fts, pairs_view(tf@));
            r.0@ == sh.order && r.1@ == sh.score && r.2@ == sh.fts_join && r.3@ == sh.extra_join
        }),
{
    let is_default = match rank {
        RankMode::Default => true,
        _ => false,
    };
    if is_default && fts {
        let mut weights: Vec<String> = Vec::new();
        let mut i: usize = 0;
        while i < tf.len()
            invariant
                i <= tf.len(),
                strings_view(weights@) == weights_of(pairs_view(tf@)).take(i as int),
            decreases tf.len() - i,
        {
            let ghost before = weights@;
            let w = tf[i].1.clone();
            let ghost wv = w@;
            weights.push(w);
            assert(strings_view(weights@) =~= strings_view(before).push(wv));
            assert(weights_of(pairs_view(tf@)).take(i + 1) =~= weights_of(pairs_view(tf@)).take(i as int).push(wv));
            i += 1;
        }
        assert(weights_of(pairs_view(tf@)).take(tf.len() as int) =~= weights_of(pairs_view(tf@)));
        let mut score = String::from_str("(-bm25(search, ");
        score.append(join_with_commas(&weights).as_str());
        score.append("))");
        return (
            String::from_str("ORDER BY score DESC, item_id ASC"),
            score,
            String::from_str("JOIN search ON search.rowid = i.id"),
            String::new(),
        );
    }
    match rank {
        RankMode::Field(_) => (
            String::from_str("ORDER BY score DESC, updated_at DESC, path ASC"),
            String::from_str("CAST(rank_field.rank_value AS REAL)"),
            String::new(),
            String::from_str("JOIN rank_field ON rank_field.item_id = i.id"),
        ),
        RankMode::Unranked => (
            String::from_str("ORDER BY item_id ASC"),
            String::from_str("NULL"),
            String::new(),
            String::new(),
        ),
        _ => (
            String::from_str("ORDER BY updated_at DESC, path ASC"),
            String::from_str("CAST(i.updated_at AS REAL)"),
            String::new(),
            String::new(),
        ),
    }
}

fn mismatch_cursor() -> (e: MinistoreError)
    ensures
        e@ == cursor_mismatch(),
{
    MinistoreError::Cursor(String::from_str("cursor does not match query/schema/rank"))
}

/// The condition and parameters that continue a search after a cursor.
pub fn after_filter_sql(rank: &RankMode, fts: bool, p: &CursorPayload, n: usize) -> (r: Result<(String, Vec<SqlValue>), MinistoreError>)
    requires
        n + 3 <= usize::MAX,
    ensures
        match (r, after_filter(rank@, fts, p@, n as nat)) {
            (Ok((f, ps)), Ok((g, qs))) => f@ == g && params_view(ps@) == qs,
            (Err(e), Err(x)) => e@ == x,
            _ => false,
        },
{
    let a = ph(n + 1);
    let b = ph(n + 2);
    let c = ph(n + 3);
    let is_default = match rank {
        RankMode::Default => true,
        _ => false,
    };
    if is_default && fts {
        return match p {
            CursorPayload::Fts { score, item_id } => {
                let mut f = concat("(score < ", a.as_str());
                f.append(" OR (score = ");
                f.append(a.as_str());
                f.append(" AND item_id > ");
                f.append(b.as_str());
                f.append("))");
                let ps = vec![SqlValue::Real(score.clone()), SqlValue::Integer(*item_id)];
                assert(params_view(ps@) =~= seq![SqlView::Real(score@), SqlView::Integer(*item_id)]);
                Ok((f, ps))
            },
            _ => Err(mismatch_cursor()),
        };
    }
    match rank {
        RankMode::Unranked => match p {
            CursorPayload::Unranked { item_id } => {
                let f = concat("item_id > ", a.as_str());
                let ps = vec![SqlValue::Integer(*item_id)];
                assert(params_view(ps@) =~= seq![SqlView::Integer(*item_id)]);
                Ok((f, ps))
            },
            _ => Err(mismatch_cursor()),
        },
        RankMode::Field(_) => match p {
            CursorPayload::Field { rank_value, updated_at_ms, path, .. } => {
                let mut f = concat("(score < ", a.as_str());
                f.append(" OR (score = ");
                f.append(a.as_str());
                f.append(" AND (updated_at < ");
                f.append(b.as_str());
                f.append(" OR (updated_at = ");
                f.append(b.as_str());
                f.append(" AND path > ");
                f.append(c.as_str());
                f.append("))))");
                let ps = vec![SqlValue::Real(rank_value.clone()), SqlValue::Integer(*updated_at_ms), SqlValue::Text(path.clone())];
                assert(params_view(ps@) =~= seq![SqlView::Real(rank_value@), SqlView::Integer(*updated_at_ms), SqlView::Text(path@)]);
                Ok((f, ps))
            },
            _ => Err(mismatch_cursor()),
        },
        _ => match p {
            CursorPayload::Recency { updated_at_ms, path } => {
                let mut f = concat("(updated_at < ", a.as_str());
                f.append(" OR (updated_at = ");
                f.append(a.as_str());
                f.append(" AND path > ");
                f.append(b.as_str());
                f.append("))");
                let ps = vec![SqlValue::Integer(*updated_at_ms), SqlValue::Text(path.clone())];
                assert(params_view(ps@) =~= seq![SqlView::Integer(*updated_at_ms), SqlView::Text(path@)]);
                Ok((f, ps))
            },
            _ => Err(mismatch_cursor()),
        },
    }
}


pub open spec fn opt_payload(after: Option<&CursorPayload>) -> Option<PayloadView> {
    match after {
        Some(p) => Some(p@),
        None => None,
    }
}

fn rank_table_of(schema: &Schema, rank: &RankMode) -> (r: Result<Option<&'static str>, MinistoreError>)
    ensures
        match (r, rank_table(schema.entries(), rank@)) {
            (Ok(Some(t)), Ok(Some(u))) => t@ == u,
            (Ok(None), Ok(None)) => true,
            (Err(e), Err(x)) => e@ == x,
            _ => false,
        },
{
    match rank {
        RankMode::Field(f) => match schema.get(f.as_str()) {
            None => Err(MinistoreError::UnknownField(f.clone())),
            Some(spec) => if spec.field_type == FieldType::Number {
                Ok(Some("field_number"))
            } else if spec.field_type == FieldType::Date {
                Ok(Some("field_date"))
            } else {
                Err(MinistoreError::TypeMismatch {
                    field: f.clone(),
                    message: String::from_str("rank field must be number or date"),
                })
            },
        },
        _ => Ok(None),
    }
}

pub fn cte_part_list(ctes: &Vec<Cte>) -> (parts: Vec<String>)
    ensures
        strings_view(parts@) == cte_parts(ctes_view(ctes@)),
{
    let ghost cv = ctes_view(ctes@);
    let mut parts: Vec<String> = Vec::new();
    let mut i: usize = 0;
    while i < ctes.len()
        invariant
            i <= ctes.len(),
            cv == ctes_view(ctes@),
            strings_view(parts@) == cte_parts(cv).take(i as int),
        decreases ctes.len() - i,
    {
        let ghost before = parts@;
        let part = cte_part_text(&ctes[i]);
        let ghost pw = part@;
        parts.push(part);
        assert(strings_view(parts@) =~= strings_view(before).push(pw));
        assert(cte_parts(cv).take(i + 1) =~= cte_parts(cv).take(i as int).push(pw));
        i += 1;
    }
    assert(cte_parts(cv).take(ctes.len() as int) =~= cte_parts(cv));
    parts
}

fn append_params(params: &mut Vec<SqlValue>, ps: &Vec<SqlValue>)
    ensures
        params_view(final(params)@) == params_view(old(params)@) + params_view(ps@),
{
    let ghost pb = params@;
    let mut k: usize = 0;
    while k < ps.len()
        invariant
            k <= ps.len(),
            params_view(params@) == params_view(pb) + params_view(ps@).take(k as int),
        decreases ps.len() - k,
    {
        let ghost before = params@;
        let v = match &ps[k] {
            SqlValue::Null => SqlValue::Null,
            SqlValue::Integer(x) => SqlValue::Integer(*x),
            SqlValue::Real(x) => SqlValue::Real(x.clone()),
            SqlValue::Text(x) => SqlValue::Text(x.clone()),
        };
        params.push(v);
        assert(params_view(params@) =~= params_view(before).push(ps@[k as int]@));
        assert(params_view(ps@).take(k + 1) =~= params_view(ps@).take(k as int).push(ps@[k as int]@));
        k += 1;
    }
    assert(params_view(ps@).take(ps.len() as int) =~= params_view(ps@));
}

fn select_text(with: String, sh: &(String, String, String, String), result: &String, after_where: &String, limit: usize) -> (r: String)
    ensures
        r@ == select_sql(with@, Shape { order: sh.0@, score: sh.1@, fts_join: sh.2@, extra_join: sh.3@ }, result@, after_where@, limit as nat),
{
    let mut sql = with;
    sql.append("\n         SELECT item_id, path, data_json, created_at, updated_at, score\n         FROM (\n           SELECT ");
    sql.append("i.id AS item_id, i.path AS path, i.data_json AS data_json, i.created_at AS created_at, i.updated_at AS updated_at");
    sql.append(", ");
    sql.append(sh.1.as_str());
    sql.append(" AS score\n           FROM items i\n           ");
    sql.append(sh.2.as_str());
    sql.append("\n           ");
    sql.append(sh.3.as_str());
    sql.append("\n           JOIN ");
    sql.append(result.as_str());
    sql.append(" r ON r.item_id = i.id\n         ) q\n         WHERE 1=1 ");
    sql.append(after_where.as_str());
    sql.append("\n         ");
    sql.append(sh.0.as_str());
    sql.append("\n         LIMIT ");
    sql.append(usize_decimal(limit).as_str());
    sql
}

/// Build the final SELECT of a search over a compiled query: the compiled CTEs
/// (and, for a field rank, a CTE with the rank value), an inner query that
/// computes the score, the condition that continues after a cursor, the order
/// of the rank mode and a limit. The parameters are those of the compiled
/// query, then the rank field, then those of the cursor condition.
pub fn build_search_sql(
    schema: &Schema,
    compiled: CompileOutput,
    rank: &RankMode,
    limit_plus_one: usize,
    after: Option<&CursorPayload>,
) -> (r: Result<(String, Vec<SqlValue>), MinistoreError>)
    requires
        compiled.params.len() + 4 <= usize::MAX,
    ensures
        match (r, search_sql_spec(schema.entries(), ctes_view(compiled.ctes@), params_view(compiled.params@),
            compiled.requires_fts_join, compiled.result_cte_name@, rank@, limit_plus_one as nat, opt_payload(after))) {
            (Ok((sql, ps)), Ok((q, qs))) => sql@ == q && params_view(ps@) == qs,
            (Err(e), Err(x)) => e@ == x,
            _ => false,
        },
{
    let table = rank_table_of(schema, rank)?;
    let fts = compiled.requires_fts_join;
    let result = compiled.result_cte_name;
    let mut parts = cte_part_list(&compiled.ctes);
    let mut params = compiled.params;
    let n0 = params.len();
    if let Some(t) = table {
        if let RankMode::Field(f) = rank {
            let ghost pb = params@;
            params.push(SqlValue::Text(f.clone()));
            assert(params_view(params@) =~= params_view(pb).push(SqlView::Text(f@)));
            let mut part = String::from_str("rank_field AS (SELECT item_id, MAX(value) AS rank_value FROM ");
            part.append(t);
            part.append(" WHERE field = ");
            part.append(ph(n0 + 1).as_str());
            part.append(" GROUP BY item_id)");
            let ghost before = parts@;
            let ghost pw = part@;
            parts.push(part);
            assert(strings_view(parts@) =~= strings_view(before).push(pw));
        }
    }
    let tf = schema.text_fields_in_order();
    let sh = rank_shape(rank, fts, &tf);
    let with = if parts.len() == 0 {
        String::new()
    } else {
        let mut w = concat("WITH ", join_with_commas(&parts).as_str());
        w.append(" ");
        w
    };
    let after_where = match after {
        None => String::new(),
        Some(p) => {
            let (f, ps) = after_filter_sql(rank, fts, p, params.len())?;
            append_params(&mut params, &ps);
            let mut w = concat("AND (", f.as_str());
            w.append(")");
            w
        },
    };
    let sql = select_text(with, &sh, &result, &after_where, limit_plus_one);
    Ok((sql, params))
}


/// The rank mode as a cursor hash records it.
pub open spec fn rank_ser_spec(r: RankMode) -> RankModeSer {
    match r {
        RankMode::Default => RankModeSer::Default,
        RankMode::Recency => RankModeSer::Recency,
        RankMode::Field(f) => RankModeSer::Field(f),
        RankMode::Unranked => RankModeSer::Unranked,
    }
}

impl<'a> From<&'a RankMode> for RankModeSer {
    fn from(mode: &'a RankMode) -> (r: RankModeSer) {
        match mode {
            RankMode::Default => RankModeSer::Default,
            RankMode::Recency => RankModeSer::Recency,
            RankMode::Field(f) => RankModeSer::Field(f.clone()),
            RankMode::Unranked => RankModeSer::Unranked,
        }
    }
}

impl<'a> vstd::std_specs::convert::FromSpecImpl<&'a RankMode> for RankModeSer {
    open spec fn obeys_from_spec() -> bool {
        true
    }

    open spec fn from_spec(mode: &'a RankMode) -> RankModeSer {
        rank_ser_spec(*mode)
    }
}

/// How a next-page cursor is handed out: stored in the index under a short
/// handle, or carried whole in the token.
#[derive(Debug, Clone, Copy, PartialEq, Eq, Structural)]
pub enum CursorMode {
    Short,
    Full,
}

/// Which members of a document a result item shows.
#[derive(Debug, Clone)]
pub enum OutputFieldSelector {
    /// The path only.
    PathsOnly,
    /// The whole document.
    All,
    /// The path and the named members.
    Fields(Vec<String>),
}

/// Options of a search.
#[derive(Debug, Clone)]
pub struct SearchOptions {
    pub rank: RankMode,
    pub limit: usize,
    /// The token of the cursor to continue after.
    pub after: Option<String>,
    pub show: OutputFieldSelector,
    pub explain: bool,
    pub cursor_mode: CursorMode,
}

impl Default for SearchOptions {
    fn default() -> (o: Self)
        ensures
            o.rank == RankMode::Default,
            o.limit == 20,
            o.after is None,
            o.show is PathsOnly,
            !o.explain,
            o.cursor_mode == CursorMode::Full,
    {
        SearchOptions {
            rank: RankMode::Default,
            limit: 20,
            after: None,
            show: OutputFieldSelector::PathsOnly,
            explain: false,
            cursor_mode: CursorMode::Full,
        }
    }
}

/// Options of an index.
#[derive(Debug, Clone, Copy)]
pub struct IndexOptions {
    /// How long a stored cursor stays valid, in milliseconds.
    pub cursor_ttl_ms: i64,
}

impl Default for IndexOptions {
    fn default() -> (o: Self)
        ensures
            o.cursor_ttl_ms == 3600000,
    {
        IndexOptions { cursor_ttl_ms: crate::constants::CURSOR_TTL_MS }
    }
}

/// One page of search results.
#[derive(Debug)]
pub struct SearchResultPage {
    pub items: Vec<JsonValue>,
    pub next_cursor: Option<String>,
    pub explain_sql: Option<String>,
    pub explain_steps: Option<Vec<String>>,
    pub has_more: bool,
}

/// A search ready to run: SQL, parameters, the compiler's explanation, and
/// whether rows are ordered by full-text relevance.
#[derive(Debug)]
pub struct PlannedQuery {
    pub sql: String,
    pub params: Vec<SqlValue>,
    pub explain: Vec<String>,
    pub requires_fts_rank: bool,
}

/// One row a search returns. The score is the JSON text of a floating-point
/// number, where the rank mode gives one.
#[derive(Debug)]
pub struct SearchRow {
    pub item_id: i64,
    pub path: String,
    pub data_json: String,
    pub created_at: i64,
    pub updated_at: i64,
    pub score: Option<String>,
}

/// The hash a cursor of this query must carry.
pub open spec fn expected_hash(schema_json: Seq<char>, query: Seq<char>, rank: RankMode) -> Seq<char> {
    hex_text(spec_sha256(hash_input(schema_json, query, rank_ser_spec(rank))))
}

/// The relative dates of the query can be computed at `now` (or the query does
/// not get that far).
pub open spec fn query_time_ok(query: Seq<char>, now: i64) -> bool {
    match parse_spec(query) {
        Ok(e) => rel_in_range(e, now),
        Err(_) => true,
    }
}

/// A planned search: checked cursor, parsed, normalized and compiled query,
/// final SQL. Gives the SQL, its parameters, the compiler's explanation and
/// whether rows are ordered by relevance.
pub open spec fn plan_spec(
    sch: Seq<(Seq<char>, SField)>,
    schema_json: Seq<char>,
    query: Seq<char>,
    rank: RankMode,
    limit: nat,
    after: Option<(PayloadView, Seq<char>)>,
    now: i64,
) -> Result<(Seq<char>, Seq<SqlView>, Seq<Seq<char>>, bool), ErrorView> {
    let hash_ok = match after {
        Some((_, h)) => h == expected_hash(schema_json, query, rank),
        None => true,
    };
    if !hash_ok {
        Err(cursor_mismatch())
    } else {
        match parse_spec(query) {
            Err(e) => Err(e),
            Ok(e) => match normalize_spec(e) {
                Err(x) => Err(x),
                Ok(n) => match compile_spec(sch, n, now) {
                    Err(x) => Err(x),
                    Ok((st, name)) => if st.params.len() + 4 > usize::MAX {
                        Err(ErrorView::Internal("too many query parameters"@))
                    } else {
                        let ap = match after {
                            Some((p, _)) => Some(p),
                            None => None,
                        };
                        match search_sql_spec(sch, st.ctes, st.params, st.requires_fts, name, rank@, limit + 1, ap) {
                            Err(x) => Err(x),
                            Ok((sql, ps)) => Ok((sql, ps, st.explain, fts_ranked(rank@, st.requires_fts))),
                        }
                    },
                },
            },
        }
    }
}

pub open spec fn opt_position(after: Option<&CursorPosition>) -> Option<(PayloadView, Seq<char>)> {
    match after {
        Some(p) => Some((p.payload@, p.hash@)),
        None => None,
    }
}

pub open spec fn planned(r: Result<PlannedQuery, MinistoreError>) -> Result<(Seq<char>, Seq<SqlView>, Seq<Seq<char>>, bool), ErrorView> {
    match r {
        Ok(p) => Ok((p.sql@, params_view(p.params@), sv(p.explain@), p.requires_fts_rank)),
        Err(e) => Err(e@),
    }
}

/// Plan a search at time `now_ms`: check the cursor (if any) against the hash
/// of this schema, query and rank mode, then parse, normalize and compile the
/// query and build the ranked SELECT for `opts.limit + 1` rows, the extra row
/// telling whether there is a next page.
pub fn plan_search_at(
    schema: &Schema,
    schema_json: &str,
    query: &str,
    opts: &SearchOptions,
    after: Option<&CursorPosition>,
    now_ms: i64,
) -> (r: Result<PlannedQuery, MinistoreError>)
    requires
        opts.limit < usize::MAX,
        query_time_ok(query@, now_ms),
    ensures
        planned(r) == plan_spec(schema.entries(), schema_json@, query@, opts.rank, opts.limit as nat, opt_position(after), now_ms),
{
    if let Some(pos) = after {
        let ser = RankModeSer::from(&opts.rank);
        let expected = hash_query(schema_json, query, &ser);
        if !crate::text::str_eq(pos.hash.as_str(), expected.as_str()) {
            return Err(mismatch_cursor());
        }
    }
    let expr = parse_query(query)?;
    let normalized = normalize(expr)?;
    let compiled = compile_to_ctes(schema, normalized, now_ms)?;
    if compiled.params.len() > usize::MAX - 4 {
        return Err(MinistoreError::Internal(String::from_str("too many query parameters")));
    }
    let explain = copy_strings(&compiled.explain_steps);
    let fts = compiled.requires_fts_join;
    let fts_rank = match opts.rank {
        RankMode::Default => fts,
        _ => false,
    };
    let payload = match after {
        Some(pos) => Some(&pos.payload),
        None => None,
    };
    let (sql, params) = build_search_sql(schema, compiled, &opts.rank, opts.limit + 1, payload)?;
    Ok(PlannedQuery { sql, params, explain, requires_fts_rank: fts_rank })
}

fn copy_strings(v: &Vec<String>) -> (r: Vec<String>)
    ensures
        sv(r@) == sv(v@),
{
    let mut r: Vec<String> = Vec::new();
    let mut i: usize = 0;
    while i < v.len()
        invariant
            i <= v.len(),
            sv(r@) == sv(v@).take(i as int),
        decreases v.len() - i,
    {
        let ghost before = r@;
        r.push(v[i].clone());
        assert(sv(r@) =~= sv(before).push(v@[i as int]@));
        assert(sv(v@).take(i + 1) =~= sv(v@).take(i as int).push(v@[i as int]@));
        i += 1;
    }
    assert(sv(v@).take(v.len() as int) =~= sv(v@));
    r
}

/// Plan a search now. Where the current time puts a relative date of the
/// query outside 64-bit milliseconds, or the limit leaves no room for the
/// extra row, the query is refused.
pub fn plan_search(
    schema: &Schema,
    schema_json: &str,
    query: &str,
    opts: &SearchOptions,
    after: Option<&CursorPosition>,
    now_ms: i64,
) -> (r: Result<PlannedQuery, MinistoreError>)
    ensures
        opts.limit == usize::MAX ==> planned(r) == Err::<(Seq<char>, Seq<SqlView>, Seq<Seq<char>>, bool), ErrorView>(
            ErrorView::QueryRejected("limit is too large"@)),
        opts.limit < usize::MAX && query_time_ok(query@, now_ms) ==> planned(r) == plan_spec(
            schema.entries(), schema_json@, query@, opts.rank, opts.limit as nat, opt_position(after), now_ms),
        opts.limit < usize::MAX && !query_time_ok(query@, now_ms) ==> planned(r) == Err::<(Seq<char>, Seq<SqlView>, Seq<Seq<char>>, bool), ErrorView>(
            ErrorView::QueryRejected("relative date is out of range"@)),
{
    if opts.limit == usize::MAX {
        return Err(MinistoreError::QueryRejected(String::from_str("limit is too large")));
    }
    check_query_time(query, now_ms)?;
    plan_search_at(schema, schema_json, query, opts, after, now_ms)
}

/// Whether every relative date of a query can be computed at `now_ms`; a query
/// that does not parse has none.
pub fn check_query_time(query: &str, now_ms: i64) -> (r: Result<(), MinistoreError>)
    ensures
        r is Ok <==> query_time_ok(query@, now_ms),
        r is Err ==> r->Err_0@ == ErrorView::QueryRejected("relative date is out of range"@),
{
    match parse_query(query) {
        Ok(e) => {
            if !relative_offsets_fit(&e, now_ms) {
                return Err(MinistoreError::QueryRejected(String::from_str("relative date is out of range")));
            }
        },
        Err(_) => {},
    }
    Ok(())
}


/// Keep the first `limit` rows of the `limit + 1` a search asked for; the
/// flag tells whether there were more.
pub fn split_page(rows: Vec<SearchRow>, limit: usize) -> (r: (Vec<SearchRow>, bool))
    ensures
        r.1 == (rows.len() > limit),
        r.0@ == (if r.1 { rows@.take(limit as int) } else { rows@ }),
{
    let has_more = rows.len() > limit;
    let mut rows = rows;
    if has_more {
        rows.truncate(limit);
    }
    (rows, has_more)
}

pub open spec fn opt_text(o: Option<String>) -> Option<Seq<char>> {
    match o {
        Some(s) => Some(s@),
        None => None,
    }
}

/// Where a page ends in the order of its rank mode, from its last row.
pub open spec fn next_payload(rank: RankView, fts_rank: bool, item_id: i64, path: Seq<char>, updated_at: i64, score: Option<Seq<char>>) -> Result<PayloadView, ErrorView> {
    match rank {
        RankView::Unranked => Ok(PayloadView::Unranked { item_id }),
        RankView::Recency => Ok(PayloadView::Recency { updated_at_ms: updated_at, path }),
        RankView::Field(f) => match score {
            Some(rv) => Ok(PayloadView::Field { field: f, rank_value: rv, updated_at_ms: updated_at, path }),
            None => Err(ErrorView::Cursor("missing rank_value for field rank"@)),
        },
        RankView::Default => if fts_rank {
            match score {
                Some(sc) => Ok(PayloadView::Fts { score: sc, item_id }),
                None => Err(ErrorView::Cursor("missing score for fts rank"@)),
            }
        } else {
            Ok(PayloadView::Recency { updated_at_ms: updated_at, path })
        },
    }
}

/// The cursor position after the last row of a page.
pub fn next_cursor_payload(rank: &RankMode, fts_rank: bool, last: &SearchRow) -> (r: Result<CursorPayload, MinistoreError>)
    ensures
        match (r, next_payload(rank@, fts_rank, last.item_id, last.path@, last.updated_at, opt_text(last.score))) {
            (Ok(p), Ok(q)) => p@ == q,
            (Err(e), Err(x)) => e@ == x,
            _ => false,
        },
{
    match rank {
        RankMode::Unranked => Ok(CursorPayload::Unranked { item_id: last.item_id }),
        RankMode::Recency => Ok(CursorPayload::Recency { updated_at_ms: last.updated_at, path: last.path.clone() }),
        RankMode::Field(f) => match &last.score {
            Some(rv) => Ok(CursorPayload::Field {
                field: f.clone(),
                rank_value: rv.clone(),
                updated_at_ms: last.updated_at,
                path: last.path.clone(),
            }),
            None => Err(MinistoreError::Cursor(String::from_str("missing rank_value for field rank"))),
        },
        RankMode::Default => {
            if fts_rank {
                match &last.score {
                    Some(sc) => Ok(CursorPayload::Fts { score: sc.clone(), item_id: last.item_id }),
                    None => Err(MinistoreError::Cursor(String::from_str("missing score for fts rank"))),
                }
            } else {
                Ok(CursorPayload::Recency { updated_at_ms: last.updated_at, path: last.path.clone() })
            }
        },
    }
}

/// The members a selected-fields item has: each selected field the document
/// has, and `path` (the item's path unless `path` is selected and the document
/// has one).
pub open spec fn selected_member(path: Seq<char>, doc: JView, fields: Seq<Seq<char>>, n: Seq<char>) -> Option<JView> {
    if fields.contains(n) && doc is Object && lookup(members_or_empty(doc), n) is Some {
        lookup(members_or_empty(doc), n)
    } else if n == "path"@ {
        Some(JView::Str(path))
    } else {
        None
    }
}

/// Shape a result item for output: the path only, the whole document (with
/// `path` added where an object lacks it), or the path and selected fields.
pub fn shape_item(view: ItemView, selector: &OutputFieldSelector) -> (r: JsonValue)
    requires
        selector is All ==> sorted_names(members_or_empty(view.doc@)),
    ensures
        match selector {
            OutputFieldSelector::PathsOnly => r@ == JView::Object(seq![("path"@, JView::Str(view.path@))]),
            OutputFieldSelector::All => if view.doc@ is Object && lookup(members_or_empty(view.doc@), "path"@) is None {
                r@ is Object && sorted_names(members_or_empty(r@)) && forall|n: Seq<char>| #[trigger] lookup(members_or_empty(r@), n) == (if n == "path"@ {
                    Some(JView::Str(view.path@))
                } else {
                    lookup(members_or_empty(view.doc@), n)
                })
            } else {
                r@ == view.doc@
            },
            OutputFieldSelector::Fields(fields) => r@ is Object && sorted_names(members_or_empty(r@)) && forall|n: Seq<char>| #[trigger] lookup(members_or_empty(r@), n) == selected_member(view.path@, view.doc@, sv(fields@), n),
        },
{
    match selector {
        OutputFieldSelector::PathsOnly => {
            let obj = vec![(String::from_str("path"), JsonValue::String(view.path))];
            proof {
                lemma_jv_members(obj@);
                assert(jv_members(obj@) =~= seq![("path"@, JView::Str(view.path@))]);
            }
            JsonValue::Object(obj)
        },
        OutputFieldSelector::All => {
            let has_path = view.doc.get("path").is_some();
            match view.doc {
                JsonValue::Object(mut obj) => {
                    if !has_path {
                        obj_insert(&mut obj, String::from_str("path"), JsonValue::String(view.path));
                    }
                    JsonValue::Object(obj)
                },
                other => other,
            }
        },
        OutputFieldSelector::Fields(fields) => {
            let mut obj: Vec<(String, JsonValue)> = Vec::new();
            proof {
                lemma_jv_members(obj@);
            }
            obj_insert(&mut obj, String::from_str("path"), JsonValue::String(view.path.clone()));
            let is_obj = view.doc.as_object().is_some();
            let mut i: usize = 0;
            while i < fields.len()
                invariant
                    i <= fields.len(),
                    is_obj == (view.doc@ is Object),
                    sorted_names(jv_members(obj@)),
                    forall|n: Seq<char>| #[trigger] lookup(jv_members(obj@), n) == selected_member(view.path@, view.doc@, sv(fields@).take(i as int), n),
                decreases fields.len() - i,
            {
                let ghost before = jv_members(obj@);
                let ghost fi = fields@[i as int]@;
                assert(sv(fields@).take(i + 1) =~= sv(fields@).take(i as int).push(fi));
                if is_obj {
                    match view.doc.get(fields[i].as_str()) {
                        Some(val) => {
                            let v = val.copy();
                            obj_insert(&mut obj, fields[i].clone(), v);
                        },
                        None => {},
                    }
                }
                proof {
                    assert forall|n: Seq<char>| #[trigger] lookup(jv_members(obj@), n) == selected_member(view.path@, view.doc@, sv(fields@).take(i + 1), n) by {
                        if n == fi {
                            assert(sv(fields@).take(i + 1)[i as int] == fi);
                            assert(sv(fields@).take(i + 1).contains(fi));
                        } else {
                            if sv(fields@).take(i + 1).contains(n) {
                                let k = choose|k: int| 0 <= k < i + 1 && #[trigger] sv(fields@).take(i + 1)[k] == n;
                                assert(sv(fields@).take(i as int)[k] == n);
                            }
                            if sv(fields@).take(i as int).contains(n) {
                                let k = choose|k: int| 0 <= k < i && #[trigger] sv(fields@).take(i as int)[k] == n;
                                assert(sv(fields@).take(i + 1)[k] == n);
                            }
                        }
                    }
                }
                i += 1;
            }
            assert(sv(fields@).take(fields.len() as int) =~= sv(fields@));
            JsonValue::Object(obj)
        },
    }
}


/// What a stored cursor gives back: its JSON text while it has not expired.
pub open spec fn stored_cursor(row: Option<(Seq<char>, i64)>, now: i64) -> Result<Seq<char>, ErrorView> {
    match row {
        None => Err(ErrorView::Cursor("cursor expired; rerun query"@)),
        Some((json, expires_at)) => if expires_at < now {
            Err(ErrorView::Cursor("cursor expired; rerun query"@))
        } else {
            Ok(json)
        },
    }
}

/// The JSON text of a stored cursor read at `now`; a missing or expired one
/// asks for the query to be run again.
pub fn resolve_stored_cursor(row: Option<(String, i64)>, now: i64) -> (r: Result<String, MinistoreError>)
    ensures
        match (r, stored_cursor(match row { Some((j, e)) => Some((j@, e)), None => None }, now)) {
            (Ok(j), Ok(k)) => j@ == k,
            (Err(e), Err(x)) => e@ == x,
            _ => false,
        },
{
    match row {
        None => Err(MinistoreError::Cursor(String::from_str("cursor expired; rerun query"))),
        Some((json, expires_at)) => if expires_at < now {
            Err(MinistoreError::Cursor(String::from_str("cursor expired; rerun query")))
        } else {
            Ok(json)
        },
    }
}

/// Check a cursor against the hash of the query it is used with.
pub fn check_cursor_hash(pos: &CursorPosition, expected: &str) -> (r: Result<(), MinistoreError>)
    ensures
        r is Ok <==> pos.hash@ == expected@,
        r is Err ==> r->Err_0@ == cursor_mismatch(),
{
    if crate::text::str_eq(pos.hash.as_str(), expected) {
        Ok(())
    } else {
        Err(mismatch_cursor())
    }
}

/// When a stored cursor made at `now` expires.
pub fn cursor_expiry(now: i64, opts: &IndexOptions) -> (r: i64)
    requires
        i64::MIN <= now + opts.cursor_ttl_ms <= i64::MAX,
    ensures
        r == now + opts.cursor_ttl_ms,
{
    now + opts.cursor_ttl_ms
}

/// What to do after trying to store a cursor under a fresh handle.
#[derive(Debug)]
pub enum StoreStep {
    /// The cursor is stored.
    Done,
    /// The handle was taken: try another.
    TryAgain,
    /// Give up with this error.
    GiveUp(MinistoreError),
}

/// The number of handles tried before storing a cursor fails.
pub const MAX_HANDLE_ATTEMPTS: u32 = 3;

/// The next step after attempt number `attempts` (from 1) to store a cursor,
/// given whether its handle collided with a stored one: at most three handles
/// are tried.
pub fn after_store_attempt(attempts: u32, collided: bool) -> (r: StoreStep)
    ensures
        !collided ==> r is Done,
        collided && attempts < MAX_HANDLE_ATTEMPTS ==> r is TryAgain,
        collided && attempts >= MAX_HANDLE_ATTEMPTS ==> r is GiveUp && r->GiveUp_0@ == ErrorView::Cursor(
            "failed to generate unique cursor handle after 3 attempts"@),
{
    if !collided {
        StoreStep::Done
    } else if attempts < MAX_HANDLE_ATTEMPTS {
        StoreStep::TryAgain
    } else {
        StoreStep::GiveUp(MinistoreError::Cursor(String::from_str("failed to generate unique cursor handle after 3 attempts")))
    }
}

/// The explanation a page carries when asked for: the SQL and the compiler's
/// steps.
pub fn page_explain(explain: bool, plan: &PlannedQuery) -> (r: (Option<String>, Option<Vec<String>>))
    ensures
        explain ==> r.0 is Some && r.0->0@ == plan.sql@ && r.1 is Some && sv(r.1->0@) == sv(plan.explain@),
        !explain ==> r.0 is None && r.1 is None,
{
    if explain {
        (Some(plan.sql.clone()), Some(copy_strings(&plan.explain)))
    } else {
        (None, None)
    }
}

} // verus!
