//! What storing a prepared document writes: the rows of the index tables, the
//! full-text row, and the document-frequency changes of keyword values.
use vstd::prelude::*;
use crate::put::{PutPrepared, PutState};
use crate::query::planner::{params_view, strings_view, SqlValue, SqlView};
use crate::schema::{text_fields_spec, Schema};
use crate::search::join_comma;
use crate::sql::{SQL_INSERT_FIELD_BOOL, SQL_INSERT_FIELD_DATE, SQL_INSERT_FIELD_NUMBER, SQL_INSERT_FIELD_PRESENT};
use crate::text::{chars_of, concat, str_eq};
use crate::fts::names_of;

verus! {

/// A statement with its parameters.
#[derive(Debug)]
pub struct SqlStatement {
    pub sql: String,
    pub params: Vec<SqlValue>,
}

pub open spec fn stmt_view(s: SqlStatement) -> (Seq<char>, Seq<SqlView>) {
    (s.sql@, params_view(s.params@))
}

pub open spec fn stmts_view(v: Seq<SqlStatement>) -> Seq<(Seq<char>, Seq<SqlView>)> {
    v.map_values(|s: SqlStatement| stmt_view(s))
}

/// `hay` holds `needle` somewhere.
pub open spec fn has_infix(hay: Seq<char>, needle: Seq<char>) -> bool {
    exists|i: int| 0 <= i <= hay.len() - needle.len() && #[trigger] hay.subrange(i, i + needle.len()) == needle
}

/// Whether `needle` occurs in `hay`.
pub fn contains_text(hay: &str, needle: &str) -> (r: bool)
    ensures
        r == has_infix(hay@, needle@),
{
    let h = chars_of(hay);
    let n = chars_of(needle);
    if n.len() > h.len() {
        return false;
    }
    let mut i: usize = 0;
    while i <= h.len() - n.len()
        invariant
            n.len() <= h.len(),
            h@ == hay@,
            n@ == needle@,
            i <= h.len() - n.len() + 1,
            forall|k: int| 0 <= k < i ==> #[trigger] hay@.subrange(k, k + needle@.len()) != needle@,
        decreases h.len() - n.len() + 1 - i,
    {
        let mut j: usize = 0;
        let mut same = true;
        while j < n.len()
            invariant
                j <= n.len(),
                i + n.len() <= h.len(),
                h@ == hay@,
                n@ == needle@,
                same == (forall|m: int| 0 <= m < j ==> #[trigger] h@[i + m] == n@[m]),
            decreases n.len() - j,
        {
            if h[i + j] != n[j] {
                same = false;
            }
            j += 1;
        }
        if same {
            assert forall|m: int| 0 <= m < needle@.len() implies #[trigger] hay@.subrange(i as int, i + needle@.len())[m] == needle@[m] by {
                assert(h@[i + m] == n@[m]);
            }
            assert(hay@.subrange(i as int, i + needle@.len()) =~= needle@);
            return true;
        }
        proof {
            let m = choose|m: int| 0 <= m < n.len() && #[trigger] h@[i + m] != n@[m];
            assert(hay@.subrange(i as int, i + needle@.len())[m] != needle@[m]);
        }
        i += 1;
    }
    false
}

/// An SQLite failure that only says the full-text table does not exist; a
/// schema without text fields has none, so deleting its row is no error.
pub fn is_no_such_table_search(code_is_unknown: bool, message: Option<&str>) -> (r: bool)
    ensures
        r == (code_is_unknown && message is Some && has_infix(message->0@, "no such table: search"@)),
{
    match message {
        Some(m) => code_is_unknown && contains_text(m, "no such table: search"),
        None => false,
    }
}

/// The keyword value ids whose document frequency goes up (each occurrence of
/// an id the item did not have) and down (each id the item had and no longer
/// has) when an item's keyword values change.
pub open spec fn freq_increments(old_ids: Seq<i64>, new_ids: Seq<i64>) -> Seq<i64> {
    new_ids.filter(|v: i64| !old_ids.contains(v))
}

pub open spec fn freq_decrements(old_ids: Seq<i64>, new_ids: Seq<i64>) -> Seq<i64> {
    old_ids.filter(|v: i64| !new_ids.contains(v))
}

fn contains_id(v: &Vec<i64>, x: i64) -> (r: bool)
    ensures
        r == v@.contains(x),
{
    let mut i: usize = 0;
    while i < v.len()
        invariant
            i <= v.len(),
            forall|k: int| 0 <= k < i ==> v@[k] != x,
        decreases v.len() - i,
    {
        if v[i] == x {
            return true;
        }
        i += 1;
    }
    false
}

fn filter_absent(src: &Vec<i64>, other: &Vec<i64>) -> (r: Vec<i64>)
    ensures
        r@ == src@.filter(|v: i64| !other@.contains(v)),
{
    let mut r: Vec<i64> = Vec::new();
    let mut i: usize = 0;
    while i < src.len()
        invariant
            i <= src.len(),
            r@ == src@.take(i as int).filter(|v: i64| !other@.contains(v)),
        decreases src.len() - i,
    {
        assert(src@.take(i + 1).drop_last() == src@.take(i as int));
        reveal(Seq::filter);
        if !contains_id(other, src[i]) {
            r.push(src[i]);
        }
        i += 1;
    }
    assert(src@.take(src.len() as int) == src@);
    r
}

/// The document-frequency changes of storing an item whose keyword values had
/// the ids `old_ids` (each once) and now resolve to `new_ids`, in order.
pub fn doc_freq_changes(old_ids: &Vec<i64>, new_ids: &Vec<i64>) -> (r: (Vec<i64>, Vec<i64>))
    ensures
        r.0@ == freq_increments(old_ids@, new_ids@),
        r.1@ == freq_decrements(old_ids@, new_ids@),
{
    (filter_absent(new_ids, old_ids), filter_absent(old_ids, new_ids))
}

/// The statement that adds an item's full-text row: its id, then one column
/// per text field.
pub open spec fn fts_insert_sql_spec(names: Seq<Seq<char>>) -> Seq<char> {
    "INSERT INTO search(rowid, "@ + join_comma(names) + ") VALUES("@
        + join_comma(Seq::new(names.len() + 1, |i: int| "?"@)) + ")"@
}

pub open spec fn text_params(item_id: i64, cols: Seq<Option<Seq<char>>>) -> Seq<SqlView> {
    seq![SqlView::Integer(item_id)] + cols.map_values(|c: Option<Seq<char>>| match c {
        Some(s) => SqlView::Text(s),
        None => SqlView::Null,
    })
}

/// The full-text row of a prepared document, for a schema with text fields.
pub fn fts_row(schema: &Schema, item_id: i64, prep: &PutPrepared) -> (r: Option<SqlStatement>)
    ensures
        match r {
            Some(st) => names_of(text_fields_spec(schema.entries())).len() > 0
                && stmt_view(st) == (fts_insert_sql_spec(names_of(text_fields_spec(schema.entries()))), text_params(item_id, prep.state().text_cols)),
            None => names_of(text_fields_spec(schema.entries())).len() == 0,
        },
{
    let tf = schema.text_fields_in_order();
    if tf.len() == 0 {
        return None;
    }
    let ghost names = names_of(text_fields_spec(schema.entries()));
    let mut cols: Vec<String> = Vec::new();
    let mut marks: Vec<String> = Vec::new();
    marks.push(String::from_str("?"));
    let mut i: usize = 0;
    while i < tf.len()
        invariant
            i <= tf.len(),
            names == names_of(crate::schema::pairs_view(tf@)),
            strings_view(cols@) == names.take(i as int),
            strings_view(marks@) == Seq::new(i as nat + 1, |k: int| "?"@),
        decreases tf.len() - i,
    {
        let ghost c0 = cols@;
        let ghost m0 = marks@;
        let c = tf[i].0.clone();
        let ghost cv = c@;
        cols.push(c);
        marks.push(String::from_str("?"));
        assert(strings_view(cols@) =~= strings_view(c0).push(cv));
        assert(names.take(i + 1) =~= names.take(i as int).push(cv));
        assert(strings_view(marks@) =~= strings_view(m0).push("?"@));
        assert(Seq::new((i + 1) as nat + 1, |k: int| "?"@) =~= Seq::new(i as nat + 1, |k: int| "?"@).push("?"@));
        i += 1;
    }
    assert(names.take(tf.len() as int) == names);
    let mut sql = concat("INSERT INTO search(rowid, ", crate::search::join_with_commas(&cols).as_str());
    sql.append(") VALUES(");
    sql.append(crate::search::join_with_commas(&marks).as_str());
    sql.append(")");
    let mut params: Vec<SqlValue> = Vec::new();
    params.push(SqlValue::Integer(item_id));
    let ghost tc = prep.state().text_cols;
    let mut k: usize = 0;
    while k < prep.text_cols.len()
        invariant
            k <= prep.text_cols.len(),
            tc == prep.state().text_cols,
            tc.len() == prep.text_cols.len(),
            params_view(params@) == text_params(item_id, tc.take(k as int)),
        decreases prep.text_cols.len() - k,
    {
        let ghost p0 = params@;
        let v = match &prep.text_cols[k] {
            Some(s) => SqlValue::Text(s.clone()),
            None => SqlValue::Null,
        };
        let ghost vv = v@;
        params.push(v);
        assert(params_view(params@) =~= params_view(p0).push(vv));
        assert(text_params(item_id, tc.take(k + 1)) =~= text_params(item_id, tc.take(k as int)).push(vv));
        k += 1;
    }
    assert(tc.take(prep.text_cols.len() as int) == tc);
    Some(SqlStatement { sql, params })
}


/// One insert per value: for each field in order, each of its values.
pub open spec fn multi_rows(sql: Seq<char>, item_id: i64, fields: Seq<(Seq<char>, Seq<SqlView>)>) -> Seq<(Seq<char>, Seq<SqlView>)>
    decreases fields.len(),
{
    if fields.len() == 0 {
        seq![]
    } else {
        multi_rows(sql, item_id, fields.drop_last()) + fields.last().1.map_values(
            |v: SqlView| (sql, seq![SqlView::Integer(item_id), SqlView::Text(fields.last().0), v]),
        )
    }
}

pub open spec fn present_rows(item_id: i64, present: Seq<Seq<char>>) -> Seq<(Seq<char>, Seq<SqlView>)> {
    present.map_values(|f: Seq<char>| (SQL_INSERT_FIELD_PRESENT@, seq![SqlView::Integer(item_id), SqlView::Text(f)]))
}

/// The rows of the number, date and boolean tables for a prepared document:
/// numbers as reals, dates as integers, booleans as 1 or 0.
pub open spec fn value_rows_spec(item_id: i64, st: PutState) -> Seq<(Seq<char>, Seq<SqlView>)> {
    multi_rows(SQL_INSERT_FIELD_NUMBER@, item_id, st.numbers.map_values(
        |p: (Seq<char>, Seq<Seq<char>>)| (p.0, p.1.map_values(|t: Seq<char>| SqlView::Real(t))),
    )) + multi_rows(SQL_INSERT_FIELD_DATE@, item_id, st.dates.map_values(
        |p: (Seq<char>, Seq<i64>)| (p.0, p.1.map_values(|d: i64| SqlView::Integer(d))),
    )) + multi_rows(SQL_INSERT_FIELD_BOOL@, item_id, st.bools.map_values(
        |p: (Seq<char>, bool)| (p.0, seq![SqlView::Integer(if p.1 { 1 } else { 0 })]),
    ))
}

fn stmt(sql: &str, params: Vec<SqlValue>) -> (r: SqlStatement)
    ensures
        stmt_view(r) == (sql@, params_view(params@)),
{
    SqlStatement { sql: sql.to_owned(), params }
}

/// The `field_present` rows of a prepared document.
pub fn present_statements(item_id: i64, prep: &PutPrepared) -> (r: Vec<SqlStatement>)
    ensures
        stmts_view(r@) == present_rows(item_id, prep.state().present),
{
    let ghost pr = prep.state().present;
    let mut out: Vec<SqlStatement> = Vec::new();
    let mut i: usize = 0;
    while i < prep.present_fields.len()
        invariant
            i <= prep.present_fields.len(),
            pr == prep.state().present,
            pr.len() == prep.present_fields.len(),
            stmts_view(out@) == present_rows(item_id, pr.take(i as int)),
        decreases prep.present_fields.len() - i,
    {
        let ghost o0 = out@;
        let params = vec![SqlValue::Integer(item_id), SqlValue::Text(prep.present_fields[i].clone())];
        assert(params_view(params@) =~= seq![SqlView::Integer(item_id), SqlView::Text(pr[i as int])]);
        let s = stmt(SQL_INSERT_FIELD_PRESENT, params);
        let ghost sv = stmt_view(s);
        out.push(s);
        assert(stmts_view(out@) =~= stmts_view(o0).push(sv));
        assert(present_rows(item_id, pr.take(i + 1)) =~= present_rows(item_id, pr.take(i as int)).push(sv));
        i += 1;
    }
    assert(pr.take(prep.present_fields.len() as int) == pr);
    out
}

proof fn lemma_multi_rows_step(sql: Seq<char>, item_id: i64, f: Seq<(Seq<char>, Seq<SqlView>)>, i: int)
    requires
        0 <= i < f.len(),
    ensures
        multi_rows(sql, item_id, f.take(i + 1)) == multi_rows(sql, item_id, f.take(i)) + f[i].1.map_values(
            |v: SqlView| (sql, seq![SqlView::Integer(item_id), SqlView::Text(f[i].0), v]),
        ),
{
    assert(f.take(i + 1).drop_last() =~= f.take(i));
}

fn push_field_rows(out: &mut Vec<SqlStatement>, sql: &str, item_id: i64, field: &String, vals: &Vec<SqlValue>)
    ensures
        stmts_view(final(out)@) == stmts_view(old(out)@) + params_view(vals@).map_values(
            |v: SqlView| (sql@, seq![SqlView::Integer(item_id), SqlView::Text(field@), v]),
        ),
{
    let ghost start = stmts_view(out@);
    let ghost pv = params_view(vals@);
    let mut j: usize = 0;
    while j < vals.len()
        invariant
            j <= vals.len(),
            pv == params_view(vals@),
            stmts_view(out@) == start + pv.take(j as int).map_values(
                |v: SqlView| (sql@, seq![SqlView::Integer(item_id), SqlView::Text(field@), v]),
            ),
        decreases vals.len() - j,
    {
        let ghost o0 = out@;
        let v = match &vals[j] {
            SqlValue::Null => SqlValue::Null,
            SqlValue::Integer(x) => SqlValue::Integer(*x),
            SqlValue::Real(x) => SqlValue::Real(x.clone()),
            SqlValue::Text(x) => SqlValue::Text(x.clone()),
        };
        let ghost vv = v@;
        let params = vec![SqlValue::Integer(item_id), SqlValue::Text(field.clone()), v];
        assert(params_view(params@) =~= seq![SqlView::Integer(item_id), SqlView::Text(field@), vv]);
        let s = stmt(sql, params);
        let ghost sv = stmt_view(s);
        out.push(s);
        assert(stmts_view(out@) =~= stmts_view(o0).push(sv));
        assert(pv.take(j + 1).map_values(|v: SqlView| (sql@, seq![SqlView::Integer(item_id), SqlView::Text(field@), v]))
            =~= pv.take(j as int).map_values(|v: SqlView| (sql@, seq![SqlView::Integer(item_id), SqlView::Text(field@), v])).push(sv));
        j += 1;
    }
    assert(pv.take(vals.len() as int) =~= pv);
}


pub open spec fn number_groups(st: PutState) -> Seq<(Seq<char>, Seq<SqlView>)> {
    st.numbers.map_values(|p: (Seq<char>, Seq<Seq<char>>)| (p.0, p.1.map_values(|t: Seq<char>| SqlView::Real(t))))
}

pub open spec fn date_groups(st: PutState) -> Seq<(Seq<char>, Seq<SqlView>)> {
    st.dates.map_values(|p: (Seq<char>, Seq<i64>)| (p.0, p.1.map_values(|d: i64| SqlView::Integer(d))))
}

pub open spec fn bool_groups(st: PutState) -> Seq<(Seq<char>, Seq<SqlView>)> {
    st.bools.map_values(|p: (Seq<char>, bool)| (p.0, seq![SqlView::Integer(if p.1 { 1 } else { 0 })]))
}

/// The rows of the number, date and boolean tables of a prepared document.
pub fn value_statements(item_id: i64, prep: &PutPrepared) -> (r: Vec<SqlStatement>)
    ensures
        stmts_view(r@) == value_rows_spec(item_id, prep.state()),
{
    let ghost st = prep.state();
    let mut out: Vec<SqlStatement> = Vec::new();
    let ghost ng = number_groups(st);
    let mut i: usize = 0;
    assert(stmts_view(out@) =~= seq![]);
    while i < prep.number_fields.len()
        invariant
            i <= prep.number_fields.len(),
            st == prep.state(),
            ng == number_groups(st),
            ng.len() == prep.number_fields.len(),
            stmts_view(out@) == multi_rows(SQL_INSERT_FIELD_NUMBER@, item_id, ng.take(i as int)),
        decreases prep.number_fields.len() - i,
    {
        let (field, texts) = (&prep.number_fields[i].0, &prep.number_fields[i].1);
        let mut vals: Vec<SqlValue> = Vec::new();
        let mut k: usize = 0;
        while k < texts.len()
            invariant
                k <= texts.len(),
                params_view(vals@) == strings_view(texts@).take(k as int).map_values(|t: Seq<char>| SqlView::Real(t)),
            decreases texts.len() - k,
        {
            let ghost v0 = vals@;
            vals.push(SqlValue::Real(texts[k].clone()));
            assert(params_view(vals@) =~= params_view(v0).push(SqlView::Real(texts@[k as int]@)));
            assert(strings_view(texts@).take(k + 1).map_values(|t: Seq<char>| SqlView::Real(t)) =~= strings_view(texts@).take(k as int).map_values(|t: Seq<char>| SqlView::Real(t)).push(SqlView::Real(texts@[k as int]@)));
            k += 1;
        }
        assert(strings_view(texts@).take(texts.len() as int) =~= strings_view(texts@));
        proof {
            lemma_multi_rows_step(SQL_INSERT_FIELD_NUMBER@, item_id, ng, i as int);
            assert(ng[i as int] == (field@, params_view(vals@)));
        }
        push_field_rows(&mut out, SQL_INSERT_FIELD_NUMBER, item_id, field, &vals);
        i += 1;
    }
    assert(ng.take(prep.number_fields.len() as int) =~= ng);
    let ghost after_numbers = stmts_view(out@);
    let ghost dg = date_groups(st);
    let mut out2: Vec<SqlStatement> = Vec::new();
    assert(stmts_view(out2@) =~= seq![]);
    let mut i: usize = 0;
    while i < prep.date_fields.len()
        invariant
            i <= prep.date_fields.len(),
            st == prep.state(),
            dg == date_groups(st),
            dg.len() == prep.date_fields.len(),
            stmts_view(out2@) == multi_rows(SQL_INSERT_FIELD_DATE@, item_id, dg.take(i as int)),
        decreases prep.date_fields.len() - i,
    {
        let (field, ds) = (&prep.date_fields[i].0, &prep.date_fields[i].1);
        let mut vals: Vec<SqlValue> = Vec::new();
        let mut k: usize = 0;
        while k < ds.len()
            invariant
                k <= ds.len(),
                params_view(vals@) == ds@.take(k as int).map_values(|d: i64| SqlView::Integer(d)),
            decreases ds.len() - k,
        {
            let ghost v0 = vals@;
            vals.push(SqlValue::Integer(ds[k]));
            assert(params_view(vals@) =~= params_view(v0).push(SqlView::Integer(ds@[k as int])));
            assert(ds@.take(k + 1).map_values(|d: i64| SqlView::Integer(d)) =~= ds@.take(k as int).map_values(|d: i64| SqlView::Integer(d)).push(SqlView::Integer(ds@[k as int])));
            k += 1;
        }
        assert(ds@.take(ds.len() as int) =~= ds@);
        proof {
            lemma_multi_rows_step(SQL_INSERT_FIELD_DATE@, item_id, dg, i as int);
            assert(dg[i as int] == (field@, params_view(vals@)));
        }
        push_field_rows(&mut out2, SQL_INSERT_FIELD_DATE, item_id, field, &vals);
        i += 1;
    }
    assert(dg.take(prep.date_fields.len() as int) =~= dg);
    let ghost bg = bool_groups(st);
    let mut out3: Vec<SqlStatement> = Vec::new();
    assert(stmts_view(out3@) =~= seq![]);
    let mut i: usize = 0;
    while i < prep.bool_fields.len()
        invariant
            i <= prep.bool_fields.len(),
            st == prep.state(),
            bg == bool_groups(st),
            bg.len() == prep.bool_fields.len(),
            stmts_view(out3@) == multi_rows(SQL_INSERT_FIELD_BOOL@, item_id, bg.take(i as int)),
        decreases prep.bool_fields.len() - i,
    {
        let field = &prep.bool_fields[i].0;
        let b = prep.bool_fields[i].1;
        let vals = vec![SqlValue::Integer(if b { 1 } else { 0 })];
        proof {
            assert(params_view(vals@) =~= seq![SqlView::Integer(if b { 1 } else { 0 })]);
            lemma_multi_rows_step(SQL_INSERT_FIELD_BOOL@, item_id, bg, i as int);
            assert(bg[i as int] == (field@, params_view(vals@)));
        }
        push_field_rows(&mut out3, SQL_INSERT_FIELD_BOOL, item_id, field, &vals);
        i += 1;
    }
    assert(bg.take(prep.bool_fields.len() as int) =~= bg);
    let ghost a2 = stmts_view(out2@);
    let ghost a3 = stmts_view(out3@);
    out.append(&mut out2);
    out.append(&mut out3);
    assert(stmts_view(out@) =~= after_numbers + a2 + a3);
    out
}

} // verus!
