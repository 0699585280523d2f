//! Laws that say what the planner, the cursor filter, the parser, document
//! extraction and statistics mean, in terms of their inputs.
use vstd::prelude::*;
use crate::aggregate::stats_spec;
use crate::query::ast::{CmpOp, SPred};
use crate::query::planner::{c_pred, is_implicit_date, CState, SqlView};
use crate::schema::{lookup, FieldType, SField};
use crate::sql::{SQL_INSERT_FIELD_DATE, SQL_INSERT_FIELD_NUMBER};
use crate::text::nat_decimal;
use crate::cursor::PayloadView;
use crate::search::{after_filter, fts_ranked, shape, RankView};
use crate::query::lexer::SpecTok;
use crate::item::members_or_empty;
use crate::json::JView;
use crate::put::{bool_value, field_phase, field_step, prepare_spec, text_phase, PutState};
use crate::query::parser::{cur, p_pred, query_date};

verus! {

/// The `k`-th statement parameter as written in SQL.
pub open spec fn param_ref(k: nat) -> Seq<char> {
    "?"@ + nat_decimal(k)
}

/// A number comparison on a number field tests the stored value with the
/// operator the query wrote: `>` for `>`, `>=` for `>=`, `<` for `<`, `<=` for
/// `<=` and `=` for equality, against the value given as the second new
/// parameter.
pub proof fn law_number_comparison_keeps_operator(sch: Seq<(Seq<char>, SField)>, now: i64, st: CState, f: Seq<char>, op: CmpOp, v: Seq<char>)
    requires
        lookup(sch, f) is Some,
        lookup(sch, f)->0.field_type == FieldType::Number,
    ensures
        c_pred(sch, now, st, SPred::NumberCmp { field: f, op, value: v }) is Ok,
        ({
            let (st1, _) = c_pred(sch, now, st, SPred::NumberCmp { field: f, op, value: v })->Ok_0;
            let n = st.params.len();
            let head = "SELECT item_id FROM field_number WHERE field = "@ + param_ref(n + 1) + " AND value "@;
            let tail = " "@ + param_ref(n + 2);
            &&& st1.params == st.params.push(SqlView::Text(f)).push(SqlView::Real(v))
            &&& op == CmpOp::Gt ==> st1.ctes.last().1 == head + ">"@ + tail
            &&& op == CmpOp::Gte ==> st1.ctes.last().1 == head + ">="@ + tail
            &&& op == CmpOp::Lt ==> st1.ctes.last().1 == head + "<"@ + tail
            &&& op == CmpOp::Lte ==> st1.ctes.last().1 == head + "<="@ + tail
            &&& op == CmpOp::Eq ==> st1.ctes.last().1 == head + "="@ + tail
        }),
{
}

/// An absolute date comparison on a date field of the schema tests the stored
/// epoch milliseconds with the operator the query wrote.
pub proof fn law_date_comparison_keeps_operator(sch: Seq<(Seq<char>, SField)>, now: i64, st: CState, f: Seq<char>, op: CmpOp, ms: i64)
    requires
        !is_implicit_date(f),
        lookup(sch, f) is Some,
        lookup(sch, f)->0.field_type == FieldType::Date,
    ensures
        c_pred(sch, now, st, SPred::DateCmpAbs { field: f, op, epoch_ms: ms }) is Ok,
        ({
            let (st1, _) = c_pred(sch, now, st, SPred::DateCmpAbs { field: f, op, epoch_ms: ms })->Ok_0;
            let n = st.params.len();
            let head = "SELECT item_id FROM field_date WHERE field = "@ + param_ref(n + 1) + " AND value "@;
            let tail = " "@ + param_ref(n + 2);
            &&& st1.params == st.params.push(SqlView::Text(f)).push(SqlView::Integer(ms))
            &&& op == CmpOp::Gt ==> st1.ctes.last().1 == head + ">"@ + tail
            &&& op == CmpOp::Gte ==> st1.ctes.last().1 == head + ">="@ + tail
            &&& op == CmpOp::Lt ==> st1.ctes.last().1 == head + "<"@ + tail
            &&& op == CmpOp::Lte ==> st1.ctes.last().1 == head + "<="@ + tail
            &&& op == CmpOp::Eq ==> st1.ctes.last().1 == head + "="@ + tail
        }),
{
}

/// Statistics of a number or date field read the table that storing a
/// document writes that type's values into: the table named by the insert
/// statement for that type.
pub proof fn law_stats_read_the_stored_table(sch: Seq<(Seq<char>, SField)>, f: Seq<char>, now: i64)
    requires
        !is_implicit_date(f),
        lookup(sch, f) is Some,
        lookup(sch, f)->0.field_type == FieldType::Number || lookup(sch, f)->0.field_type == FieldType::Date,
    ensures
        exists|table: Seq<char>| {
            &&& (if lookup(sch, f)->0.field_type == FieldType::Number { SQL_INSERT_FIELD_NUMBER@ } else { SQL_INSERT_FIELD_DATE@ })
                == "INSERT INTO "@ + table + "(item_id, field, value) VALUES(?1, ?2, ?3)"@
            &&& #[trigger] stats_spec(sch, f, None, now) == Ok::<(Seq<char>, Seq<SqlView>, bool), crate::error::ErrorView>((
                "SELECT COUNT(*), MIN(value), MAX(value), AVG(value) FROM "@ + table + " WHERE field = ?1"@,
                seq![SqlView::Text(f)],
                false,
            ))
        },
{
    reveal_strlit("INSERT INTO ");
    reveal_strlit("(item_id, field, value) VALUES(?1, ?2, ?3)");
    reveal_strlit("field_number");
    reveal_strlit("field_date");
    reveal_strlit("INSERT INTO field_number(item_id, field, value) VALUES(?1, ?2, ?3)");
    reveal_strlit("INSERT INTO field_date(item_id, field, value) VALUES(?1, ?2, ?3)");
    if lookup(sch, f)->0.field_type == FieldType::Number {
        let t = "field_number"@;
        assert(SQL_INSERT_FIELD_NUMBER@ =~= "INSERT INTO "@ + t + "(item_id, field, value) VALUES(?1, ?2, ?3)"@);
        assert(stats_spec(sch, f, None, now) == Ok::<(Seq<char>, Seq<SqlView>, bool), crate::error::ErrorView>((
            "SELECT COUNT(*), MIN(value), MAX(value), AVG(value) FROM "@ + t + " WHERE field = ?1"@, seq![SqlView::Text(f)], false)));
    } else {
        let t = "field_date"@;
        assert(SQL_INSERT_FIELD_DATE@ =~= "INSERT INTO "@ + t + "(item_id, field, value) VALUES(?1, ?2, ?3)"@);
        assert(stats_spec(sch, f, None, now) == Ok::<(Seq<char>, Seq<SqlView>, bool), crate::error::ErrorView>((
            "SELECT COUNT(*), MIN(value), MAX(value), AVG(value) FROM "@ + t + " WHERE field = ?1"@, seq![SqlView::Text(f)], false)));
    }
}

/// The comparison that keeps what comes after a value in a sort direction:
/// smaller values come after in a descending order, larger in an ascending.
pub open spec fn after_cmp(desc: bool) -> Seq<char> {
    if desc {
        " < "@
    } else {
        " > "@
    }
}

/// The sort direction as SQL writes it.
pub open spec fn direction(desc: bool) -> Seq<char> {
    if desc {
        " DESC"@
    } else {
        " ASC"@
    }
}

/// The keys of an `ORDER BY`, in order, separated by commas.
pub open spec fn order_keys(keys: Seq<(Seq<char>, bool)>) -> Seq<char>
    decreases keys.len(),
{
    if keys.len() == 0 {
        seq![]
    } else if keys.len() == 1 {
        keys[0].0 + direction(keys[0].1)
    } else {
        keys[0].0 + direction(keys[0].1) + ", "@ + order_keys(keys.drop_first())
    }
}

/// The condition that a row comes strictly after the row whose key values are
/// `refs` in the lexicographic order of `keys`: it is past it on the first
/// key, or equal there and past it on the rest.
pub open spec fn strictly_after(keys: Seq<(Seq<char>, bool)>, refs: Seq<Seq<char>>) -> Seq<char>
    decreases keys.len(),
{
    if keys.len() <= 1 {
        if keys.len() == 0 {
            seq![]
        } else {
            keys[0].0 + after_cmp(keys[0].1) + refs[0]
        }
    } else {
        "("@ + keys[0].0 + after_cmp(keys[0].1) + refs[0] + " OR ("@ + keys[0].0 + " = "@ + refs[0] + " AND "@
            + strictly_after(keys.drop_first(), refs.drop_first()) + "))"@
    }
}

/// The sort keys of a rank mode (`true` for descending): relevance then id for
/// full-text relevance, the rank field then recency for a field rank, the id
/// alone when unranked, and newest first, then path, otherwise.
pub open spec fn rank_keys(rank: RankView, fts: bool) -> Seq<(Seq<char>, bool)> {
    if fts_ranked(rank, fts) {
        seq![("score"@, true), ("item_id"@, false)]
    } else {
        match rank {
            RankView::Field(_) => seq![("score"@, true), ("updated_at"@, true), ("path"@, false)],
            RankView::Unranked => seq![("item_id"@, false)],
            _ => seq![("updated_at"@, true), ("path"@, false)],
        }
    }
}

/// The parameters `?(n+1)`, `?(n+2)`, ... for `k` keys.
pub open spec fn refs_from(n: nat, k: nat) -> Seq<Seq<char>> {
    Seq::new(k, |i: int| param_ref((n + 1 + i) as nat))
}

proof fn lemma_two_keys(k0: Seq<char>, d0: bool, k1: Seq<char>, d1: bool, a: Seq<char>, b: Seq<char>)
    ensures
        strictly_after(seq![(k0, d0), (k1, d1)], seq![a, b])
            == "("@ + k0 + after_cmp(d0) + a + " OR ("@ + k0 + " = "@ + a + " AND "@ + (k1 + after_cmp(d1) + b) + "))"@,
        order_keys(seq![(k0, d0), (k1, d1)]) == k0 + direction(d0) + ", "@ + (k1 + direction(d1)),
{
    let keys = seq![(k0, d0), (k1, d1)];
    let refs = seq![a, b];
    assert(keys.len() == 2 && keys[0] == (k0, d0) && refs[0] == a);
    assert(keys.drop_first() =~= seq![(k1, d1)]);
    assert(refs.drop_first() =~= seq![b]);
    let k1s = seq![(k1, d1)];
    assert(k1s.len() == 1 && k1s[0] == (k1, d1));
    assert(seq![b][0] == b);
    assert(strictly_after(k1s, seq![b]) == k1 + after_cmp(d1) + b);
    assert(order_keys(k1s) == k1 + direction(d1));
}

proof fn lemma_three_keys(k0: Seq<char>, d0: bool, k1: Seq<char>, d1: bool, k2: Seq<char>, d2: bool, a: Seq<char>, b: Seq<char>, c: Seq<char>)
    ensures
        strictly_after(seq![(k0, d0), (k1, d1), (k2, d2)], seq![a, b, c])
            == "("@ + k0 + after_cmp(d0) + a + " OR ("@ + k0 + " = "@ + a + " AND "@ + strictly_after(seq![(k1, d1), (k2, d2)], seq![b, c]) + "))"@,
        order_keys(seq![(k0, d0), (k1, d1), (k2, d2)]) == k0 + direction(d0) + ", "@ + order_keys(seq![(k1, d1), (k2, d2)]),
{
    let keys = seq![(k0, d0), (k1, d1), (k2, d2)];
    let refs = seq![a, b, c];
    assert(keys.len() == 3 && keys[0] == (k0, d0) && refs[0] == a);
    assert(keys.drop_first() =~= seq![(k1, d1), (k2, d2)]);
    assert(refs.drop_first() =~= seq![b, c]);
}

proof fn lemma_refs(n: nat)
    ensures
        refs_from(n, 1) =~= seq![param_ref(n + 1)],
        refs_from(n, 2) =~= seq![param_ref(n + 1), param_ref(n + 2)],
        refs_from(n, 3) =~= seq![param_ref(n + 1), param_ref(n + 2), param_ref(n + 3)],
{
}

#[verifier::rlimit(40)]
proof fn lemma_fts_order(tf: Seq<(Seq<char>, Seq<char>)>, p: PayloadView, n: nat)
    requires
        after_filter(RankView::Default, true, p, n) is Ok,
    ensures
        shape(RankView::Default, true, tf).order == "ORDER BY "@ + order_keys(rank_keys(RankView::Default, true)),
        after_filter(RankView::Default, true, p, n)->Ok_0.0 == strictly_after(rank_keys(RankView::Default, true), refs_from(n, 2)),
{
    let a = param_ref(n + 1);
    let b = param_ref(n + 2);
    lemma_refs(n);
    lemma_two_keys("score"@, true, "item_id"@, false, a, b);
    reveal_strlit("ORDER BY score DESC, item_id ASC");
    reveal_strlit("ORDER BY ");
    reveal_strlit("score");
    reveal_strlit("item_id");
    reveal_strlit(" DESC");
    reveal_strlit(" ASC");
    reveal_strlit(", ");
    assert("ORDER BY score DESC, item_id ASC"@ =~= "ORDER BY "@ + ("score"@ + " DESC"@ + ", "@ + ("item_id"@ + " ASC"@)));
    reveal_strlit("(score < ");
    reveal_strlit(" OR (score = ");
    reveal_strlit(" AND item_id > ");
    reveal_strlit("(");
    reveal_strlit(" < ");
    reveal_strlit(" > ");
    reveal_strlit(" OR (");
    reveal_strlit(" = ");
    reveal_strlit(" AND ");
    assert("(score < "@ =~= "("@ + "score"@ + " < "@);
    assert(" OR (score = "@ =~= " OR ("@ + "score"@ + " = "@);
    assert(" AND item_id > "@ =~= " AND "@ + "item_id"@ + " > "@);
    assert(after_filter(RankView::Default, true, p, n)->Ok_0.0 =~= strictly_after(rank_keys(RankView::Default, true), refs_from(n, 2)));
}

#[verifier::rlimit(40)]
proof fn lemma_field_order(f: Seq<char>, tf: Seq<(Seq<char>, Seq<char>)>, p: PayloadView, n: nat, fts: bool)
    requires
        after_filter(RankView::Field(f), fts, p, n) is Ok,
    ensures
        shape(RankView::Field(f), fts, tf).order == "ORDER BY "@ + order_keys(rank_keys(RankView::Field(f), fts)),
        after_filter(RankView::Field(f), fts, p, n)->Ok_0.0 == strictly_after(rank_keys(RankView::Field(f), fts), refs_from(n, 3)),
{
    let a = param_ref(n + 1);
    let b = param_ref(n + 2);
    let c = param_ref(n + 3);
    lemma_refs(n);
    lemma_three_keys("score"@, true, "updated_at"@, true, "path"@, false, a, b, c);
    lemma_two_keys("updated_at"@, true, "path"@, false, b, c);
    reveal_strlit("ORDER BY score DESC, updated_at DESC, path ASC");
    reveal_strlit("ORDER BY ");
    reveal_strlit("score");
    reveal_strlit("updated_at");
    reveal_strlit("path");
    reveal_strlit(" DESC");
    reveal_strlit(" ASC");
    reveal_strlit(", ");
    assert("ORDER BY score DESC, updated_at DESC, path ASC"@ =~= "ORDER BY "@ + ("score"@ + " DESC"@ + ", "@ + ("updated_at"@ + " DESC"@ + ", "@ + ("path"@ + " ASC"@))));
    reveal_strlit("(score < ");
    reveal_strlit(" OR (score = ");
    reveal_strlit(" AND (updated_at < ");
    reveal_strlit(" OR (updated_at = ");
    reveal_strlit(" AND path > ");
    reveal_strlit("))))");
    reveal_strlit("(");
    reveal_strlit(" < ");
    reveal_strlit(" > ");
    reveal_strlit(" OR (");
    reveal_strlit(" = ");
    reveal_strlit(" AND ");
    reveal_strlit("))");
    assert("(score < "@ =~= "("@ + "score"@ + " < "@);
    assert(" OR (score = "@ =~= " OR ("@ + "score"@ + " = "@);
    assert(" AND (updated_at < "@ =~= " AND "@ + "("@ + "updated_at"@ + " < "@);
    assert(" OR (updated_at = "@ =~= " OR ("@ + "updated_at"@ + " = "@);
    assert(" AND path > "@ =~= " AND "@ + "path"@ + " > "@);
    assert("))))"@ =~= "))"@ + "))"@);
    assert(after_filter(RankView::Field(f), fts, p, n)->Ok_0.0 =~= strictly_after(rank_keys(RankView::Field(f), fts), refs_from(n, 3)));
}

proof fn lemma_unranked_order(tf: Seq<(Seq<char>, Seq<char>)>, p: PayloadView, n: nat, fts: bool)
    requires
        after_filter(RankView::Unranked, fts, p, n) is Ok,
    ensures
        shape(RankView::Unranked, fts, tf).order == "ORDER BY "@ + order_keys(rank_keys(RankView::Unranked, fts)),
        after_filter(RankView::Unranked, fts, p, n)->Ok_0.0 == strictly_after(rank_keys(RankView::Unranked, fts), refs_from(n, 1)),
{
    lemma_refs(n);
    let keys = rank_keys(RankView::Unranked, fts);
    assert(keys.len() == 1 && keys[0] == ("item_id"@, false));
    reveal_strlit("ORDER BY item_id ASC");
    reveal_strlit("ORDER BY ");
    reveal_strlit("item_id");
    reveal_strlit(" ASC");
    assert("ORDER BY item_id ASC"@ =~= "ORDER BY "@ + ("item_id"@ + " ASC"@));
    reveal_strlit("item_id > ");
    reveal_strlit(" > ");
    assert("item_id > "@ =~= "item_id"@ + " > "@);
    assert(after_filter(RankView::Unranked, fts, p, n)->Ok_0.0 =~= strictly_after(keys, refs_from(n, 1)));
}

#[verifier::rlimit(40)]
proof fn lemma_recency_order(rank: RankView, tf: Seq<(Seq<char>, Seq<char>)>, p: PayloadView, n: nat, fts: bool)
    requires
        rank is Recency || (rank is Default && !fts),
        after_filter(rank, fts, p, n) is Ok,
    ensures
        shape(rank, fts, tf).order == "ORDER BY "@ + order_keys(rank_keys(rank, fts)),
        after_filter(rank, fts, p, n)->Ok_0.0 == strictly_after(rank_keys(rank, fts), refs_from(n, 2)),
{
    let a = param_ref(n + 1);
    let b = param_ref(n + 2);
    lemma_refs(n);
    lemma_two_keys("updated_at"@, true, "path"@, false, a, b);
    reveal_strlit("ORDER BY updated_at DESC, path ASC");
    reveal_strlit("ORDER BY ");
    reveal_strlit("updated_at");
    reveal_strlit("path");
    reveal_strlit(" DESC");
    reveal_strlit(" ASC");
    reveal_strlit(", ");
    assert("ORDER BY updated_at DESC, path ASC"@ =~= "ORDER BY "@ + ("updated_at"@ + " DESC"@ + ", "@ + ("path"@ + " ASC"@)));
    reveal_strlit("(updated_at < ");
    reveal_strlit(" OR (updated_at = ");
    reveal_strlit(" AND path > ");
    reveal_strlit("(");
    reveal_strlit(" < ");
    reveal_strlit(" > ");
    reveal_strlit(" OR (");
    reveal_strlit(" = ");
    reveal_strlit(" AND ");
    assert("(updated_at < "@ =~= "("@ + "updated_at"@ + " < "@);
    assert(" OR (updated_at = "@ =~= " OR ("@ + "updated_at"@ + " = "@);
    assert(" AND path > "@ =~= " AND "@ + "path"@ + " > "@);
    assert(after_filter(rank, fts, p, n)->Ok_0.0 =~= strictly_after(rank_keys(rank, fts), refs_from(n, 2)));
}

/// A page continues after its cursor: the result is ordered by the rank
/// mode's keys, and the condition applied after a cursor keeps exactly the
/// rows that come strictly after the cursor row in that order (a smaller value
/// of a descending key, a larger of an ascending one, or an equal one and
/// strictly after on the keys that follow), the cursor's key values being the
/// new parameters.
pub proof fn law_cursor_filter_follows_order(rank: RankView, fts: bool, tf: Seq<(Seq<char>, Seq<char>)>, p: PayloadView, n: nat)
    requires
        after_filter(rank, fts, p, n) is Ok,
    ensures
        shape(rank, fts, tf).order == "ORDER BY "@ + order_keys(rank_keys(rank, fts)),
        after_filter(rank, fts, p, n)->Ok_0.0 == strictly_after(rank_keys(rank, fts), refs_from(n, rank_keys(rank, fts).len())),
{
    if fts_ranked(rank, fts) {
        lemma_fts_order(tf, p, n);
    } else {
        match rank {
            RankView::Field(f) => lemma_field_order(f, tf, p, n, fts),
            RankView::Unranked => lemma_unranked_order(tf, p, n, fts),
            _ => lemma_recency_order(rank, tf, p, n, fts),
        }
    }
}

/// A word token: an identifier or a quoted string with text `s`.
pub open spec fn word_tok(o: Option<SpecTok>, s: Seq<char>) -> bool {
    o == Some(SpecTok::Ident(s)) || o == Some(SpecTok::Str(s))
}

/// `field:A..B` with dates `A` and `B` is a date range from the date written
/// before `..` to the date written after it.
pub proof fn law_date_range_bounds(t: Seq<SpecTok>, p: int, field: Seq<char>, a: Seq<char>, b: Seq<char>, lo: i64, hi: i64)
    requires
        0 <= p,
        word_tok(cur(t, p), field),
        field != "has"@,
        field != "path"@,
        cur(t, p + 1) == Some(SpecTok::Colon),
        word_tok(cur(t, p + 2), a),
        cur(t, p + 3) == Some(SpecTok::DotDot),
        word_tok(cur(t, p + 4), b),
        query_date(a) == Ok::<i64, crate::error::ErrorView>(lo),
        query_date(b) == Ok::<i64, crate::error::ErrorView>(hi),
    ensures
        p_pred(t, p) == Ok::<(SPred, int), crate::error::ErrorView>((SPred::DateRangeAbs { field, lo_ms: lo, hi_ms: hi }, p + 5)),
{
}

proof fn lemma_bools_grow(o: Seq<(Seq<char>, JView)>, e: Seq<(Seq<char>, SField)>, st: PutState)
    requires
        field_phase(o, e, st) is Ok,
    ensures
        field_phase(o, e, st)->Ok_0.bools.len() >= st.bools.len(),
        forall|k: int| 0 <= k < st.bools.len() ==> #[trigger] field_phase(o, e, st)->Ok_0.bools[k] == st.bools[k],
    decreases e.len(),
{
    if e.len() > 0 {
        let st1 = field_step(o, e[0].0, e[0].1, st)->Ok_0;
        assert(st1.bools.len() >= st.bools.len());
        assert(forall|k: int| 0 <= k < st.bools.len() ==> #[trigger] st1.bools[k] == st.bools[k]);
        lemma_bools_grow(o, e.drop_first(), st1);
    }
}

proof fn lemma_bool_extracted(o: Seq<(Seq<char>, JView)>, e: Seq<(Seq<char>, SField)>, st: PutState, i: int, b: bool)
    requires
        field_phase(o, e, st) is Ok,
        0 <= i < e.len(),
        e[i].1.field_type == FieldType::Bool,
        lookup(o, e[i].0) is Some,
        bool_value(lookup(o, e[i].0)->0) == Some(b),
    ensures
        field_phase(o, e, st)->Ok_0.bools.contains((e[i].0, b)),
    decreases e.len(),
{
    let st1 = field_step(o, e[0].0, e[0].1, st)->Ok_0;
    if i == 0 {
        assert(st1.bools.last() == (e[0].0, b));
        lemma_bools_grow(o, e.drop_first(), st1);
        let k = st1.bools.len() - 1;
        assert(field_phase(o, e, st)->Ok_0.bools[k] == (e[0].0, b));
    } else {
        assert(e.drop_first()[i - 1] == e[i]);
        lemma_bool_extracted(o, e.drop_first(), st1, i - 1, b);
    }
}

/// A boolean field of a stored document is indexed with the value the
/// document gives: the JSON boolean itself, `false` for the string `"false"`
/// and `true` for the string `"true"`.
pub proof fn law_bool_values_extracted(sch: Seq<(Seq<char>, SField)>, doc: JView, i: int)
    requires
        prepare_spec(sch, doc) is Ok,
        0 <= i < sch.len(),
        sch[i].1.field_type == FieldType::Bool,
        lookup(members_or_empty(doc), sch[i].0) is Some,
    ensures
        ({
            let name = sch[i].0;
            let v = lookup(members_or_empty(doc), name)->0;
            let bools = prepare_spec(sch, doc)->Ok_0.1.bools;
            &&& v == JView::Str("false"@) ==> bools.contains((name, false))
            &&& v == JView::Str("true"@) ==> bools.contains((name, true))
            &&& forall|b: bool| v == JView::Bool(b) ==> #[trigger] bools.contains((name, b))
        }),
{
    reveal_strlit("true");
    reveal_strlit("false");
    let o = members_or_empty(doc);
    let (tc, pr) = text_phase(o, crate::schema::text_fields_spec(sch), seq![], seq![])->Ok_0;
    let st0 = PutState { text_cols: tc, keywords: seq![], numbers: seq![], dates: seq![], bools: seq![], present: pr };
    let v = lookup(o, sch[i].0)->0;
    assert(field_phase(o, sch, st0) is Ok);
    assert(prepare_spec(sch, doc)->Ok_0.1 == field_phase(o, sch, st0)->Ok_0);
    assert("false"@.len() == 5 && "true"@.len() == 4);
    assert("false"@ != "true"@);
    assert(v == JView::Str("false"@) ==> bool_value(v) == Some(false));
    assert(v == JView::Str("true"@) ==> bool_value(v) == Some(true));
    match bool_value(v) {
        Some(b) => lemma_bool_extracted(o, sch, st0, i, b),
        None => {
            assert(field_phase(o, sch, st0) is Err) by {
                crate::laws::law_mistyped_value_refused(sch, doc, i);
            }
        },
    }
}

} // verus!
