//! The full-text table: its columns follow the schema's text fields in name
//! order, and a schema may only grow it at the end.
use vstd::prelude::*;
use crate::error::{ErrorView, MinistoreError};
use crate::query::planner::strings_view;
use crate::schema::{lookup, pairs_view, schema_check, text_fields_spec, FieldSpec, SField, Schema};
use crate::search::{join_comma, join_with_commas};
use crate::text::{chars_of, concat, concat3, debug_quote, debug_str, str_eq};

verus! {

pub open spec fn names_of(tf: Seq<(Seq<char>, Seq<char>)>) -> Seq<Seq<char>> {
    tf.map_values(|p: (Seq<char>, Seq<char>)| p.0)
}

/// The statement that creates the full-text table, one column per text field.
pub open spec fn fts_ddl_spec(sch: Seq<(Seq<char>, SField)>) -> Result<Seq<char>, ErrorView> {
    let tf = text_fields_spec(sch);
    if tf.len() == 0 {
        Err(ErrorView::Schema("schema must have at least one text field for FTS"@))
    } else {
        Ok("CREATE VIRTUAL TABLE IF NOT EXISTS search USING fts5("@ + join_comma(names_of(tf))
            + ", tokenize='unicode61')"@)
    }
}

fn text_field_names(schema: &Schema) -> (r: Vec<String>)
    ensures
        strings_view(r@) == names_of(text_fields_spec(schema.entries())),
{
    let tf = schema.text_fields_in_order();
    let ghost pv = pairs_view(tf@);
    let mut names: Vec<String> = Vec::new();
    let mut i: usize = 0;
    while i < tf.len()
        invariant
            i <= tf.len(),
            pv == pairs_view(tf@),
            strings_view(names@) == names_of(pv).take(i as int),
        decreases tf.len() - i,
    {
        let ghost before = names@;
        let n = tf[i].0.clone();
        let ghost nv = n@;
        names.push(n);
        assert(strings_view(names@) =~= strings_view(before).push(nv));
        assert(names_of(pv).take(i + 1) =~= names_of(pv).take(i as int).push(nv));
        i += 1;
    }
    assert(names_of(pv).take(tf.len() as int) =~= names_of(pv));
    names
}

/// Build the statement that creates the full-text table; a schema without text
/// fields has none.
pub fn build_fts_ddl(schema: &Schema) -> (r: Result<String, MinistoreError>)
    ensures
        match (r, fts_ddl_spec(schema.entries())) {
            (Ok(s), Ok(t)) => s@ == t,
            (Err(e), Err(x)) => e@ == x,
            _ => false,
        },
{
    let names = text_field_names(schema);
    if names.len() == 0 {
        return Err(MinistoreError::Schema(String::from_str("schema must have at least one text field for FTS")));
    }
    let mut ddl = concat("CREATE VIRTUAL TABLE IF NOT EXISTS search USING fts5(", join_with_commas(&names).as_str());
    ddl.append(", tokenize='unicode61')");
    Ok(ddl)
}

/// The columns that are the table's own, not FTS5's auxiliary ones.
pub open spec fn own_column(n: Seq<char>) -> bool {
    !(n.len() >= 7 && n.skip(n.len() - 7) == "_config"@) && n != "rank"@
}

pub open spec fn own_columns(cols: Seq<Seq<char>>) -> Seq<Seq<char>>
    decreases cols.len(),
{
    if cols.len() == 0 {
        seq![]
    } else if own_column(cols.last()) {
        own_columns(cols.drop_last()).push(cols.last())
    } else {
        own_columns(cols.drop_last())
    }
}

/// How `{:?}` writes a list of strings.
pub open spec fn debug_list(v: Seq<Seq<char>>) -> Seq<char> {
    "["@ + join_comma(v.map_values(|s: Seq<char>| debug_str(s))) + "]"@
}

/// The full-text table's columns match the text fields of the schema, in
/// order; otherwise the index must be migrated.
pub open spec fn fts_columns_spec(sch: Seq<(Seq<char>, SField)>, table_columns: Seq<Seq<char>>) -> Result<(), ErrorView> {
    let expected = names_of(text_fields_spec(sch));
    let actual = own_columns(table_columns);
    if actual == expected {
        Ok(())
    } else {
        Err(ErrorView::Schema("FTS columns mismatch; expected "@ + debug_list(expected) + " but found "@ + debug_list(actual)
            + ". Run 'ministore index migrate'."@))
    }
}

fn is_own_column(n: &String) -> (r: bool)
    ensures
        r == own_column(n@),
{
    let v = chars_of(n.as_str());
    let len = v.len();
    let mut cfg = false;
    if len >= 7 {
        let tail = crate::text::string_of_range(&v, len - 7, len);
        assert(v@.subrange(len - 7, len as int) == n@.skip(len - 7));
        cfg = str_eq(tail.as_str(), "_config");
    }
    !cfg && !str_eq(n.as_str(), "rank")
}

fn debug_list_text(v: &Vec<String>) -> (r: String)
    ensures
        r@ == debug_list(strings_view(v@)),
{
    let ghost sv = strings_view(v@);
    let mut parts: Vec<String> = Vec::new();
    let mut i: usize = 0;
    while i < v.len()
        invariant
            i <= v.len(),
            sv == strings_view(v@),
            strings_view(parts@) == sv.take(i as int).map_values(|s: Seq<char>| debug_str(s)),
        decreases v.len() - i,
    {
        let ghost before = parts@;
        let d = debug_quote(v[i].as_str());
        let ghost dv = d@;
        parts.push(d);
        assert(strings_view(parts@) =~= strings_view(before).push(dv));
        assert(sv.take(i + 1).map_values(|s: Seq<char>| debug_str(s)) =~= sv.take(i as int).map_values(|s: Seq<char>| debug_str(s)).push(dv));
        i += 1;
    }
    assert(sv.take(v.len() as int) =~= sv);
    concat3("[", join_with_commas(&parts).as_str(), "]")
}

/// Check the columns the full-text table has (as `PRAGMA table_info(search)`
/// lists them) against the text fields of the schema.
pub fn check_fts_columns(schema: &Schema, table_columns: &Vec<String>) -> (r: Result<(), MinistoreError>)
    ensures
        match (r, fts_columns_spec(schema.entries(), strings_view(table_columns@))) {
            (Ok(()), Ok(())) => true,
            (Err(e), Err(x)) => e@ == x,
            _ => false,
        },
{
    let expected = text_field_names(schema);
    let ghost cv = strings_view(table_columns@);
    let mut actual: Vec<String> = Vec::new();
    let mut i: usize = 0;
    while i < table_columns.len()
        invariant
            i <= table_columns.len(),
            cv == strings_view(table_columns@),
            strings_view(actual@) == own_columns(cv.take(i as int)),
        decreases table_columns.len() - i,
    {
        assert(cv.take(i + 1).drop_last() == cv.take(i as int));
        assert(cv.take(i + 1).last() == table_columns@[i as int]@);
        if is_own_column(&table_columns[i]) {
            let ghost before = actual@;
            let n = table_columns[i].clone();
            let ghost nv = n@;
            actual.push(n);
            assert(strings_view(actual@) =~= strings_view(before).push(nv));
        }
        i += 1;
    }
    assert(cv.take(table_columns.len() as int) == cv);
    let mut same = actual.len() == expected.len();
    let mut k: usize = 0;
    while same && k < actual.len()
        invariant
            k <= actual.len(),
            same ==> actual.len() == expected.len(),
            same == (actual.len() == expected.len() && forall|j: int| 0 <= j < k ==> #[trigger] actual@[j]@ == expected@[j]@),
        decreases actual.len() - k,
    {
        if !str_eq(actual[k].as_str(), expected[k].as_str()) {
            same = false;
        }
        k += 1;
    }
    proof {
        if same {
            assert(strings_view(actual@) =~= strings_view(expected@));
        } else if actual.len() == expected.len() {
            let j = choose|j: int| 0 <= j < actual.len() && #[trigger] actual@[j]@ != expected@[j]@;
            assert(strings_view(actual@)[j] != strings_view(expected@)[j]);
        }
    }
    if same {
        Ok(())
    } else {
        let mut m = concat("FTS columns mismatch; expected ", debug_list_text(&expected).as_str());
        m.append(" but found ");
        m.append(debug_list_text(&actual).as_str());
        m.append(". Run 'ministore index migrate'.");
        Err(MinistoreError::Schema(m))
    }
}


/// Every field of the current schema stays in the new one with its type and
/// multiplicity; the first that does not is the error.
pub open spec fn fields_kept(cur: Seq<(Seq<char>, SField)>, new: Seq<(Seq<char>, SField)>) -> Result<(), ErrorView>
    decreases cur.len(),
{
    if cur.len() == 0 {
        Ok(())
    } else {
        let name = cur[0].0;
        match lookup(new, name) {
            Some(ns) => if ns.field_type != cur[0].1.field_type {
                Err(ErrorView::Schema("field '"@ + name + "' type changed"@))
            } else if ns.multi != cur[0].1.multi {
                Err(ErrorView::Schema("field '"@ + name + "' multi changed"@))
            } else {
                fields_kept(cur.drop_first(), new)
            },
            None => Err(ErrorView::Schema("field '"@ + name + "' removed"@)),
        }
    }
}

pub open spec fn add_column(name: Seq<char>) -> Seq<char> {
    "ALTER TABLE search ADD COLUMN "@ + name
}

/// A schema change is additive when the new schema is valid, keeps every field
/// with its type and multiplicity, and keeps the text columns as a prefix of
/// its own; it then adds the new text columns at the end.
pub open spec fn schema_change_spec(cur: Seq<(Seq<char>, SField)>, new: Seq<(Seq<char>, SField)>) -> Result<Seq<Seq<char>>, ErrorView> {
    match schema_check(new) {
        Err(e) => Err(e),
        Ok(()) => match fields_kept(cur, new) {
            Err(e) => Err(e),
            Ok(()) => {
                let ct = names_of(text_fields_spec(cur));
                let nt = names_of(text_fields_spec(new));
                if nt.len() < ct.len() {
                    Err(ErrorView::Schema("text fields removed or reordered"@))
                } else if nt.take(ct.len() as int) != ct {
                    Err(ErrorView::Schema("text fields reordered or changed"@))
                } else {
                    Ok(nt.skip(ct.len() as int).map_values(|n: Seq<char>| add_column(n)))
                }
            },
        },
    }
}

/// Check that a schema change is additive and give the statements that add
/// the new text columns to the full-text table.
pub fn plan_schema_change(current: &Schema, new_schema: &Schema) -> (r: Result<Vec<String>, MinistoreError>)
    ensures
        match (r, schema_change_spec(current.entries(), new_schema.entries())) {
            (Ok(v), Ok(w)) => strings_view(v@) == w,
            (Err(e), Err(x)) => e@ == x,
            _ => false,
        },
{
    match new_schema.validate() {
        Ok(()) => {},
        Err(e) => return Err(e),
    }
    let fields = current.fields();
    let ghost ce = current.entries();
    let ghost ne = new_schema.entries();
    let mut i: usize = 0;
    assert(ce.skip(0) == ce);
    while i < fields.len()
        invariant
            i <= fields.len(),
            ce == current.entries(),
            ne == new_schema.entries(),
            fields@.map_values(|p: (String, FieldSpec)| (p.0@, p.1@)) == ce,
            fields_kept(ce, ne) == fields_kept(ce.skip(i as int), ne),
            schema_check(ne) is Ok,
        decreases fields.len() - i,
    {
        assert(ce.skip(i as int)[0] == ce[i as int]);
        assert(ce.skip(i as int).drop_first() == ce.skip(i + 1));
        assert(ce[i as int] == (fields@[i as int].0@, fields@[i as int].1@));
        let name = &fields[i].0;
        let spec = &fields[i].1;
        match new_schema.get(name.as_str()) {
            Some(ns) => {
                if ns.field_type != spec.field_type {
                    return Err(MinistoreError::Schema(concat3("field '", name.as_str(), "' type changed")));
                }
                if ns.multi != spec.multi {
                    return Err(MinistoreError::Schema(concat3("field '", name.as_str(), "' multi changed")));
                }
            },
            None => {
                return Err(MinistoreError::Schema(concat3("field '", name.as_str(), "' removed")));
            },
        }
        i += 1;
    }
    let ct = text_field_names(current);
    let nt = text_field_names(new_schema);
    if nt.len() < ct.len() {
        return Err(MinistoreError::Schema(String::from_str("text fields removed or reordered")));
    }
    let ghost cv = strings_view(ct@);
    let ghost nv = strings_view(nt@);
    let mut k: usize = 0;
    while k < ct.len()
        invariant
            k <= ct.len() <= nt.len(),
            cv == strings_view(ct@),
            nv == strings_view(nt@),
            forall|j: int| 0 <= j < k ==> #[trigger] nv[j] == cv[j],
            schema_check(new_schema.entries()) is Ok,
            fields_kept(current.entries(), new_schema.entries()) is Ok,
            cv == names_of(text_fields_spec(current.entries())),
            nv == names_of(text_fields_spec(new_schema.entries())),
        decreases ct.len() - k,
    {
        assert(nv[k as int] == nt@[k as int]@ && cv[k as int] == ct@[k as int]@);
        if !str_eq(nt[k].as_str(), ct[k].as_str()) {
            assert(nv.take(ct.len() as int)[k as int] != cv[k as int]);
            return Err(MinistoreError::Schema(String::from_str("text fields reordered or changed")));
        }
        k += 1;
    }
    assert(nv.take(ct.len() as int) =~= cv);
    let mut out: Vec<String> = Vec::new();
    let mut m: usize = ct.len();
    while m < nt.len()
        invariant
            ct.len() <= m <= nt.len(),
            nv == strings_view(nt@),
            strings_view(out@) == nv.subrange(ct.len() as int, m as int).map_values(|n: Seq<char>| add_column(n)),
        decreases nt.len() - m,
    {
        let ghost before = out@;
        let stmt = concat("ALTER TABLE search ADD COLUMN ", nt[m].as_str());
        let ghost sv = stmt@;
        out.push(stmt);
        assert(strings_view(out@) =~= strings_view(before).push(sv));
        assert(nv.subrange(ct.len() as int, m + 1).map_values(|n: Seq<char>| add_column(n)) =~= nv.subrange(ct.len() as int, m as int).map_values(|n: Seq<char>| add_column(n)).push(sv));
        m += 1;
    }
    assert(nv.subrange(ct.len() as int, nt.len() as int) =~= nv.skip(ct.len() as int));
    Ok(out)
}

pub open spec fn new_columns(old_names: Seq<Seq<char>>, new_names: Seq<Seq<char>>) -> Seq<Seq<char>>
    decreases new_names.len(),
{
    if new_names.len() == 0 {
        seq![]
    } else if old_names.contains(new_names.last()) {
        new_columns(old_names, new_names.drop_last())
    } else {
        new_columns(old_names, new_names.drop_last()).push(add_column(new_names.last()))
    }
}

/// The statements that add to the full-text table each text field of the new
/// schema the old one lacks, in column order.
pub fn additive_columns(old: &Schema, new_schema: &Schema) -> (r: Vec<String>)
    ensures
        strings_view(r@) == new_columns(names_of(text_fields_spec(old.entries())), names_of(text_fields_spec(new_schema.entries()))),
{
    let ot = text_field_names(old);
    let nt = text_field_names(new_schema);
    let ghost ov = strings_view(ot@);
    let ghost nv = strings_view(nt@);
    let mut out: Vec<String> = Vec::new();
    let mut i: usize = 0;
    while i < nt.len()
        invariant
            i <= nt.len(),
            ov == strings_view(ot@),
            nv == strings_view(nt@),
            strings_view(out@) == new_columns(ov, nv.take(i as int)),
        decreases nt.len() - i,
    {
        assert(nv.take(i + 1).drop_last() == nv.take(i as int));
        assert(nv.take(i + 1).last() == nv[i as int]);
        let mut found = false;
        let mut k: usize = 0;
        while k < ot.len()
            invariant
                k <= ot.len(),
                ov == strings_view(ot@),
                nv == strings_view(nt@),
                i < nt.len(),
                found == (exists|j: int| 0 <= j < k && #[trigger] ov[j] == nv[i as int]),
            decreases ot.len() - k,
        {
            assert(ov[k as int] == ot@[k as int]@ && nv[i as int] == nt@[i as int]@);
            if str_eq(ot[k].as_str(), nt[i].as_str()) {
                found = true;
            }
            k += 1;
        }
        if !found {
            let ghost before = out@;
            let stmt = concat("ALTER TABLE search ADD COLUMN ", nt[i].as_str());
            let ghost sv = stmt@;
            out.push(stmt);
            assert(strings_view(out@) =~= strings_view(before).push(sv));
        }
        i += 1;
    }
    assert(nv.take(nt.len() as int) == nv);
    out
}

} // verus!
