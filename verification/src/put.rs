//! Checking a document against the schema and extracting the values each
//! index table receives.
use vstd::prelude::*;
use crate::dates::{date_ms, parse_date_ms};
use crate::error::{ErrorView, MinistoreError};
use crate::item::{doc_path, members_or_empty};
use crate::json::{json_text, jv, jv_items, jv_members, lemma_jv_items, lemma_jv_members, JView, JsonValue};
use crate::number::{float_syntax, is_float_text};
use crate::query::planner::strings_view;
use crate::schema::{lookup, pairs_view, text_fields_spec, FieldSpec, FieldType, SField, Schema};
use crate::text::{concat, str_eq};

verus! {

/// A document checked against the schema, with the values for each index
/// table. Numbers are kept as the text of a floating-point number that
/// `str::parse::<f64>` reads.
#[derive(Debug)]
pub struct PutPrepared {
    pub path: String,
    pub data_json: String,
    pub text_cols: Vec<Option<String>>,
    pub keyword_fields: Vec<(String, Vec<String>)>,
    pub number_fields: Vec<(String, Vec<String>)>,
    pub date_fields: Vec<(String, Vec<i64>)>,
    pub bool_fields: Vec<(String, bool)>,
    pub present_fields: Vec<String>,
}

/// What has been extracted from a document so far.
pub struct PutState {
    pub text_cols: Seq<Option<Seq<char>>>,
    pub keywords: Seq<(Seq<char>, Seq<Seq<char>>)>,
    pub numbers: Seq<(Seq<char>, Seq<Seq<char>>)>,
    pub dates: Seq<(Seq<char>, Seq<i64>)>,
    pub bools: Seq<(Seq<char>, bool)>,
    pub present: Seq<Seq<char>>,
}

pub open spec fn opt_strings_view(v: Seq<Option<String>>) -> Seq<Option<Seq<char>>> {
    v.map_values(|o: Option<String>| match o {
        Some(s) => Some(s@),
        None => None,
    })
}

pub open spec fn multi_strings_view(v: Seq<(String, Vec<String>)>) -> Seq<(Seq<char>, Seq<Seq<char>>)> {
    v.map_values(|p: (String, Vec<String>)| (p.0@, strings_view(p.1@)))
}

pub open spec fn multi_ints_view(v: Seq<(String, Vec<i64>)>) -> Seq<(Seq<char>, Seq<i64>)> {
    v.map_values(|p: (String, Vec<i64>)| (p.0@, p.1@))
}

pub open spec fn bools_view(v: Seq<(String, bool)>) -> Seq<(Seq<char>, bool)> {
    v.map_values(|p: (String, bool)| (p.0@, p.1))
}

impl PutPrepared {
    /// The extracted values of the document.
    pub open spec fn state(&self) -> PutState {
        PutState {
            text_cols: opt_strings_view(self.text_cols@),
            keywords: multi_strings_view(self.keyword_fields@),
            numbers: multi_strings_view(self.number_fields@),
            dates: multi_ints_view(self.date_fields@),
            bools: bools_view(self.bool_fields@),
            present: strings_view(self.present_fields@),
        }
    }
}

pub open spec fn mismatch(field: Seq<char>, message: Seq<char>) -> ErrorView {
    ErrorView::TypeMismatch { field, message }
}

pub open spec fn not_multi(field: Seq<char>) -> ErrorView {
    mismatch(field, "field is not multi-valued but received array with multiple values"@)
}

/// The strings of an array after those in `acc`, or the error for its first
/// element that is not a string.
pub open spec fn keyword_items(field: Seq<char>, a: Seq<JView>, acc: Seq<Seq<char>>) -> Result<Seq<Seq<char>>, ErrorView>
    decreases a.len(),
{
    if a.len() == 0 {
        Ok(acc)
    } else {
        match a[0] {
            JView::Str(s) => keyword_items(field, a.drop_first(), acc.push(s)),
            _ => Err(mismatch(field, "expected string in array"@)),
        }
    }
}

/// The keyword values of a field: a string, an array of strings (of at most one
/// unless the field is multi-valued), or a number or boolean taken as its text.
pub open spec fn keyword_values(field: Seq<char>, multi: bool, v: JView) -> Result<Seq<Seq<char>>, ErrorView> {
    match v {
        JView::Str(s) => Ok(seq![s]),
        JView::Array(a) => if !multi && a.len() > 1 {
            Err(not_multi(field))
        } else {
            keyword_items(field, a, seq![])
        },
        JView::Number(_, ft) => Ok(seq![ft]),
        JView::Bool(b) => Ok(seq![if b { "true"@ } else { "false"@ }]),
        _ => Err(mismatch(field, "expected string or array of strings"@)),
    }
}

/// A number as the float text it is stored with: a JSON number, or a string
/// that reads as a float.
pub open spec fn number_item(v: JView) -> Option<Seq<char>> {
    match v {
        JView::Number(_, ft) => Some(ft),
        JView::Str(s) => if float_syntax(s) { Some(s) } else { None },
        _ => None,
    }
}

pub open spec fn number_items(field: Seq<char>, a: Seq<JView>, acc: Seq<Seq<char>>) -> Result<Seq<Seq<char>>, ErrorView>
    decreases a.len(),
{
    if a.len() == 0 {
        Ok(acc)
    } else {
        match number_item(a[0]) {
            Some(x) => number_items(field, a.drop_first(), acc.push(x)),
            None => Err(mismatch(field, "expected number in array"@)),
        }
    }
}

/// The number values of a field: a number, a string that reads as a number, or
/// an array of them (of at most one unless the field is multi-valued).
pub open spec fn number_values(field: Seq<char>, multi: bool, v: JView) -> Result<Seq<Seq<char>>, ErrorView> {
    match v {
        JView::Number(_, ft) => Ok(seq![ft]),
        JView::Str(s) => if float_syntax(s) {
            Ok(seq![s])
        } else {
            Err(mismatch(field, "invalid number format in string: "@ + s))
        },
        JView::Array(a) => if !multi && a.len() > 1 {
            Err(not_multi(field))
        } else {
            number_items(field, a, seq![])
        },
        _ => Err(mismatch(field, "expected number or array of numbers"@)),
    }
}

/// A date string as epoch milliseconds, or the error for a string that is not
/// a date.
pub open spec fn doc_date(s: Seq<char>) -> Result<i64, ErrorView> {
    match date_ms(s) {
        Some(ms) => Ok(ms),
        None => Err(mismatch("date"@, "invalid date format: "@ + s)),
    }
}

pub open spec fn date_items(field: Seq<char>, a: Seq<JView>, acc: Seq<i64>) -> Result<Seq<i64>, ErrorView>
    decreases a.len(),
{
    if a.len() == 0 {
        Ok(acc)
    } else {
        match a[0] {
            JView::Str(s) => match doc_date(s) {
                Ok(ms) => date_items(field, a.drop_first(), acc.push(ms)),
                Err(e) => Err(e),
            },
            _ => Err(mismatch(field, "expected ISO date string in array"@)),
        }
    }
}

/// The date values of a field: a date string or an array of them (of at most
/// one unless the field is multi-valued).
pub open spec fn date_values(field: Seq<char>, multi: bool, v: JView) -> Result<Seq<i64>, ErrorView> {
    match v {
        JView::Str(s) => match doc_date(s) {
            Ok(ms) => Ok(seq![ms]),
            Err(e) => Err(e),
        },
        JView::Array(a) => if !multi && a.len() > 1 {
            Err(not_multi(field))
        } else {
            date_items(field, a, seq![])
        },
        _ => Err(mismatch(field, "expected ISO date string or array of date strings"@)),
    }
}

/// A boolean, or the string `true` or `false`.
pub open spec fn bool_value(v: JView) -> Option<bool> {
    match v {
        JView::Bool(b) => Some(b),
        JView::Str(s) => if s == "true"@ {
            Some(true)
        } else if s == "false"@ {
            Some(false)
        } else {
            None
        },
        _ => None,
    }
}

/// The full-text columns in column order, and the text fields present, after
/// those already in `tc` and `pr`.
pub open spec fn text_phase(o: Seq<(Seq<char>, JView)>, cols: Seq<(Seq<char>, Seq<char>)>, tc: Seq<Option<Seq<char>>>, pr: Seq<Seq<char>>) -> Result<(Seq<Option<Seq<char>>>, Seq<Seq<char>>), ErrorView>
    decreases cols.len(),
{
    if cols.len() == 0 {
        Ok((tc, pr))
    } else {
        let name = cols[0].0;
        match lookup(o, name) {
            None => text_phase(o, cols.drop_first(), tc.push(None), pr),
            Some(JView::Str(s)) => text_phase(o, cols.drop_first(), tc.push(Some(s)), pr.push(name)),
            Some(_) => Err(mismatch(name, "expected string for text field"@)),
        }
    }
}

pub open spec fn add_present(pr: Seq<Seq<char>>, name: Seq<char>) -> Seq<Seq<char>> {
    if pr.contains(name) {
        pr
    } else {
        pr.push(name)
    }
}

/// One schema field applied to the document.
pub open spec fn field_step(o: Seq<(Seq<char>, JView)>, name: Seq<char>, f: SField, st: PutState) -> Result<PutState, ErrorView> {
    match lookup(o, name) {
        None => Ok(st),
        Some(v) => match f.field_type {
            FieldType::Keyword => match keyword_values(name, f.multi, v) {
                Err(e) => Err(e),
                Ok(xs) => if xs.len() == 0 {
                    Ok(st)
                } else {
                    Ok(PutState { keywords: st.keywords.push((name, xs)), present: add_present(st.present, name), ..st })
                },
            },
            FieldType::Text => Ok(st),
            FieldType::Number => match number_values(name, f.multi, v) {
                Err(e) => Err(e),
                Ok(xs) => if xs.len() == 0 {
                    Ok(st)
                } else {
                    Ok(PutState { numbers: st.numbers.push((name, xs)), present: add_present(st.present, name), ..st })
                },
            },
            FieldType::Date => match date_values(name, f.multi, v) {
                Err(e) => Err(e),
                Ok(xs) => if xs.len() == 0 {
                    Ok(st)
                } else {
                    Ok(PutState { dates: st.dates.push((name, xs)), present: add_present(st.present, name), ..st })
                },
            },
            FieldType::Bool => match bool_value(v) {
                Some(b) => Ok(PutState { bools: st.bools.push((name, b)), present: add_present(st.present, name), ..st }),
                None => Err(mismatch(name, "expected boolean"@)),
            },
        },
    }
}

/// The schema fields applied in name order to `st`; the first error stops.
pub open spec fn field_phase(o: Seq<(Seq<char>, JView)>, e: Seq<(Seq<char>, SField)>, st: PutState) -> Result<PutState, ErrorView>
    decreases e.len(),
{
    if e.len() == 0 {
        Ok(st)
    } else {
        match field_step(o, e[0].0, e[0].1, st) {
            Err(x) => Err(x),
            Ok(st1) => field_phase(o, e.drop_first(), st1),
        }
    }
}

/// A document checked against the schema: its path and extracted values.
pub open spec fn prepare_spec(sch: Seq<(Seq<char>, SField)>, doc: JView) -> Result<(Seq<char>, PutState), ErrorView> {
    match doc_path(doc, "document must be a JSON object"@, "document must have 'path' string field"@) {
        Err(e) => Err(e),
        Ok(path) => {
            let o = members_or_empty(doc);
            match text_phase(o, text_fields_spec(sch), seq![], seq![]) {
                Err(e) => Err(e),
                Ok((tc, pr)) => {
                    let st0 = PutState { text_cols: tc, keywords: seq![], numbers: seq![], dates: seq![], bools: seq![], present: pr };
                    match field_phase(o, sch, st0) {
                        Err(e) => Err(e),
                        Ok(st) => Ok((path, st)),
                    }
                },
            }
        },
    }
}


fn mismatch_error(field: &str, message: &str) -> (e: MinistoreError)
    ensures
        e@ == mismatch(field@, message@),
{
    MinistoreError::TypeMismatch { field: field.to_owned(), message: message.to_owned() }
}

pub proof fn lemma_skip_first<A>(a: Seq<A>, i: int)
    requires
        0 <= i < a.len(),
    ensures
        a.skip(i).drop_first() == a.skip(i + 1),
        a.skip(i)[0] == a[i],
        a.skip(i).len() == a.len() - i,
{
    assert(a.skip(i).drop_first() =~= a.skip(i + 1));
}

fn extract_keyword_values(field_name: &str, value: &JsonValue, spec: &FieldSpec) -> (r: Result<Vec<String>, MinistoreError>)
    ensures
        match (r, keyword_values(field_name@, spec.multi, value@)) {
            (Ok(xs), Ok(ys)) => strings_view(xs@) == ys,
            (Err(e), Err(x)) => e@ == x,
            _ => false,
        },
{
    if let Some(s) = value.as_str() {
        let out = vec![s.clone()];
        assert(strings_view(out@) =~= seq![s@]);
        return Ok(out);
    }
    if let Some(arr) = value.as_array() {
        let ghost a = jv_items(arr@);
        proof {
            lemma_jv_items(arr@);
            assert(a.skip(0) == a);
        }
        if !spec.multi && arr.len() > 1 {
            return Err(mismatch_error(field_name, "field is not multi-valued but received array with multiple values"));
        }
        let mut out: Vec<String> = Vec::new();
        assert(strings_view(out@) =~= seq![]);
        let mut i: usize = 0;
        while i < arr.len()
            invariant
                i <= arr.len(),
                a == jv_items(arr@),
                a.len() == arr.len(),
                value@ == JView::Array(a),
                spec.multi || a.len() <= 1,
                forall|j: int| 0 <= j < arr.len() ==> #[trigger] a[j] == jv(arr@[j]),
                keyword_items(field_name@, a, seq![]) == keyword_items(field_name@, a.skip(i as int), strings_view(out@)),
            decreases arr.len() - i,
        {
            proof {
                lemma_skip_first(a, i as int);
            }
            match arr[i].as_str() {
                Some(s) => {
                    let ghost before = out@;
                    out.push(s.clone());
                    assert(strings_view(out@) =~= strings_view(before).push(s@));
                },
                None => {
                    return Err(mismatch_error(field_name, "expected string in array"));
                },
            }
            i += 1;
        }
        return Ok(out);
    }
    match value {
        JsonValue::Number(n) => {
            let out = vec![n.float_text.clone()];
            assert(strings_view(out@) =~= seq![n.float_text@]);
            Ok(out)
        },
        JsonValue::Bool(b) => {
            let out = vec![if *b { String::from_str("true") } else { String::from_str("false") }];
            assert(strings_view(out@) =~= seq![if *b { "true"@ } else { "false"@ }]);
            Ok(out)
        },
        _ => Err(mismatch_error(field_name, "expected string or array of strings")),
    }
}

fn number_of(v: &JsonValue) -> (r: Option<String>)
    ensures
        match (r, number_item(v@)) {
            (Some(x), Some(y)) => x@ == y,
            (None, None) => true,
            _ => false,
        },
{
    match v {
        JsonValue::Number(n) => Some(n.float_text.clone()),
        JsonValue::String(s) => if is_float_text(s.as_str()) {
            Some(s.clone())
        } else {
            None
        },
        _ => None,
    }
}

fn extract_number_values(field_name: &str, value: &JsonValue, spec: &FieldSpec) -> (r: Result<Vec<String>, MinistoreError>)
    ensures
        match (r, number_values(field_name@, spec.multi, value@)) {
            (Ok(xs), Ok(ys)) => strings_view(xs@) == ys,
            (Err(e), Err(x)) => e@ == x,
            _ => false,
        },
{
    match value {
        JsonValue::Number(n) => {
            let out = vec![n.float_text.clone()];
            assert(strings_view(out@) =~= seq![n.float_text@]);
            Ok(out)
        },
        JsonValue::String(s) => {
            if is_float_text(s.as_str()) {
                let out = vec![s.clone()];
                assert(strings_view(out@) =~= seq![s@]);
                Ok(out)
            } else {
                Err(MinistoreError::TypeMismatch {
                    field: field_name.to_owned(),
                    message: concat("invalid number format in string: ", s.as_str()),
                })
            }
        },
        JsonValue::Array(arr) => {
            let ghost a = jv_items(arr@);
            proof {
                lemma_jv_items(arr@);
                assert(a.skip(0) == a);
            }
            if !spec.multi && arr.len() > 1 {
                return Err(mismatch_error(field_name, "field is not multi-valued but received array with multiple values"));
            }
            let mut out: Vec<String> = Vec::new();
            assert(strings_view(out@) =~= seq![]);
            let mut i: usize = 0;
            while i < arr.len()
                invariant
                    i <= arr.len(),
                    a == jv_items(arr@),
                    a.len() == arr.len(),
                    value@ == JView::Array(a),
                    spec.multi || a.len() <= 1,
                    forall|j: int| 0 <= j < arr.len() ==> #[trigger] a[j] == jv(arr@[j]),
                    number_items(field_name@, a, seq![]) == number_items(field_name@, a.skip(i as int), strings_view(out@)),
                decreases arr.len() - i,
            {
                proof {
                    lemma_skip_first(a, i as int);
                }
                match number_of(&arr[i]) {
                    Some(x) => {
                        let ghost before = out@;
                        let ghost xv = x@;
                        out.push(x);
                        assert(strings_view(out@) =~= strings_view(before).push(xv));
                    },
                    None => {
                        return Err(mismatch_error(field_name, "expected number in array"));
                    },
                }
                i += 1;
            }
            Ok(out)
        },
        _ => Err(mismatch_error(field_name, "expected number or array of numbers")),
    }
}

/// Epoch milliseconds of a date string in a document.
pub fn parse_date_to_epoch_ms(s: &str) -> (r: Result<i64, MinistoreError>)
    ensures
        match (r, doc_date(s@)) {
            (Ok(a), Ok(b)) => a == b,
            (Err(e), Err(x)) => e@ == x,
            _ => false,
        },
{
    match parse_date_ms(s) {
        Some(ms) => Ok(ms),
        None => Err(MinistoreError::TypeMismatch {
            field: String::from_str("date"),
            message: concat("invalid date format: ", s),
        }),
    }
}

fn extract_date_values(field_name: &str, value: &JsonValue, spec: &FieldSpec) -> (r: Result<Vec<i64>, MinistoreError>)
    ensures
        match (r, date_values(field_name@, spec.multi, value@)) {
            (Ok(xs), Ok(ys)) => xs@ == ys,
            (Err(e), Err(x)) => e@ == x,
            _ => false,
        },
{
    match value {
        JsonValue::String(s) => {
            let ms = match parse_date_to_epoch_ms(s.as_str()) {
                Ok(ms) => ms,
                Err(e) => return Err(e),
            };
            let out = vec![ms];
            assert(out@ =~= seq![ms]);
            Ok(out)
        },
        JsonValue::Array(arr) => {
            let ghost a = jv_items(arr@);
            proof {
                lemma_jv_items(arr@);
                assert(a.skip(0) == a);
            }
            if !spec.multi && arr.len() > 1 {
                return Err(mismatch_error(field_name, "field is not multi-valued but received array with multiple values"));
            }
            let mut out: Vec<i64> = Vec::new();
            assert(out@ =~= seq![]);
            let mut i: usize = 0;
            while i < arr.len()
                invariant
                    i <= arr.len(),
                    a == jv_items(arr@),
                    a.len() == arr.len(),
                    value@ == JView::Array(a),
                    spec.multi || a.len() <= 1,
                    forall|j: int| 0 <= j < arr.len() ==> #[trigger] a[j] == jv(arr@[j]),
                    date_items(field_name@, a, seq![]) == date_items(field_name@, a.skip(i as int), out@),
                decreases arr.len() - i,
            {
                proof {
                    lemma_skip_first(a, i as int);
                }
                match arr[i].as_str() {
                    Some(s) => match parse_date_to_epoch_ms(s.as_str()) {
                        Ok(ms) => out.push(ms),
                        Err(e) => return Err(e),
                    },
                    None => {
                        return Err(mismatch_error(field_name, "expected ISO date string in array"));
                    },
                }
                i += 1;
            }
            Ok(out)
        },
        _ => Err(mismatch_error(field_name, "expected ISO date string or array of date strings")),
    }
}

fn bool_of(v: &JsonValue) -> (r: Option<bool>)
    ensures
        r == bool_value(v@),
{
    match v {
        JsonValue::Bool(b) => Some(*b),
        JsonValue::String(s) => if str_eq(s.as_str(), "true") {
            Some(true)
        } else if str_eq(s.as_str(), "false") {
            Some(false)
        } else {
            None
        },
        _ => None,
    }
}


fn contains_name(v: &Vec<String>, name: &String) -> (r: bool)
    ensures
        r == strings_view(v@).contains(name@),
{
    let mut i: usize = 0;
    while i < v.len()
        invariant
            i <= v.len(),
            forall|k: int| 0 <= k < i ==> v@[k]@ != name@,
        decreases v.len() - i,
    {
        if str_eq(v[i].as_str(), name.as_str()) {
            assert(strings_view(v@)[i as int] == name@);
            return true;
        }
        i += 1;
    }
    proof {
        if strings_view(v@).contains(name@) {
            let k = choose|k: int| 0 <= k < strings_view(v@).len() && strings_view(v@)[k] == name@;
            assert(v@[k]@ == name@);
        }
    }
    false
}

/// The values extracted so far, in the order the schema gives them.
struct PutBuilder {
    text_cols: Vec<Option<String>>,
    keyword_fields: Vec<(String, Vec<String>)>,
    number_fields: Vec<(String, Vec<String>)>,
    date_fields: Vec<(String, Vec<i64>)>,
    bool_fields: Vec<(String, bool)>,
    present_fields: Vec<String>,
}

impl PutBuilder {
    spec fn state(&self) -> PutState {
        PutState {
            text_cols: opt_strings_view(self.text_cols@),
            keywords: multi_strings_view(self.keyword_fields@),
            numbers: multi_strings_view(self.number_fields@),
            dates: multi_ints_view(self.date_fields@),
            bools: bools_view(self.bool_fields@),
            present: strings_view(self.present_fields@),
        }
    }

    fn mark_present(&mut self, name: &String)
        ensures
            final(self).state() == (PutState { present: add_present(old(self).state().present, name@), ..old(self).state() }),
    {
        if !contains_name(&self.present_fields, name) {
            let ghost before = self.present_fields@;
            self.present_fields.push(name.clone());
            assert(strings_view(self.present_fields@) =~= strings_view(before).push(name@));
        }
    }

    fn step(&mut self, doc: &JsonValue, name: &String, spec: &FieldSpec) -> (r: Result<(), MinistoreError>)
        requires
            doc@ is Object,
        ensures
            match field_step(doc@->Object_0, name@, spec@, old(self).state()) {
                Ok(st) => r is Ok && final(self).state() == st,
                Err(x) => r is Err && r->Err_0@ == x,
            },
    {
        let value = match doc.get(name.as_str()) {
            Some(v) => v,
            None => return Ok(()),
        };
        match spec.field_type {
            FieldType::Keyword => {
                let values = extract_keyword_values(name.as_str(), value, spec)?;
                if values.len() > 0 {
                    let ghost before = self.keyword_fields@;
                    let ghost item = (name@, strings_view(values@));
                    self.keyword_fields.push((name.clone(), values));
                    assert(multi_strings_view(self.keyword_fields@) =~= multi_strings_view(before).push(item));
                    self.mark_present(name);
                }
                Ok(())
            },
            FieldType::Text => Ok(()),
            FieldType::Number => {
                let values = extract_number_values(name.as_str(), value, spec)?;
                if values.len() > 0 {
                    let ghost before = self.number_fields@;
                    let ghost item = (name@, strings_view(values@));
                    self.number_fields.push((name.clone(), values));
                    assert(multi_strings_view(self.number_fields@) =~= multi_strings_view(before).push(item));
                    self.mark_present(name);
                }
                Ok(())
            },
            FieldType::Date => {
                let values = extract_date_values(name.as_str(), value, spec)?;
                if values.len() > 0 {
                    let ghost before = self.date_fields@;
                    let ghost item = (name@, values@);
                    self.date_fields.push((name.clone(), values));
                    assert(multi_ints_view(self.date_fields@) =~= multi_ints_view(before).push(item));
                    self.mark_present(name);
                }
                Ok(())
            },
            FieldType::Bool => {
                match bool_of(value) {
                    Some(b) => {
                        let ghost before = self.bool_fields@;
                        self.bool_fields.push((name.clone(), b));
                        assert(bools_view(self.bool_fields@) =~= bools_view(before).push((name@, b)));
                        self.mark_present(name);
                        Ok(())
                    },
                    None => Err(mismatch_error(name.as_str(), "expected boolean")),
                }
            },
        }
    }
}

/// Check a document against the schema and extract its index values: the path,
/// the full-text columns in column order, and the keyword, number, date and
/// boolean values of each schema field the document has, in name order.
pub fn prepare_put(schema: &Schema, doc: JsonValue) -> (r: Result<PutPrepared, MinistoreError>)
    ensures
        match (r, prepare_spec(schema.entries(), doc@)) {
            (Ok(p), Ok((path, st))) => p.path@ == path && p.data_json@ == json_text(doc@) && p.state() == st,
            (Err(e), Err(x)) => e@ == x,
            _ => false,
        },
{
    if doc.as_object().is_none() {
        return Err(MinistoreError::Schema(String::from_str("document must be a JSON object")));
    }
    let path = match doc.get("path") {
        Some(v) => match v.as_str() {
            Some(s) => s.clone(),
            None => return Err(MinistoreError::Schema(String::from_str("document must have 'path' string field"))),
        },
        None => return Err(MinistoreError::Schema(String::from_str("document must have 'path' string field"))),
    };
    if path.as_str().unicode_len() == 0 {
        return Err(MinistoreError::Schema(String::from_str("path cannot be empty")));
    }
    let ghost o = doc@->Object_0;
    let cols = schema.text_fields_in_order();
    let ghost tcs = pairs_view(cols@);
    let mut b = PutBuilder {
        text_cols: Vec::new(),
        keyword_fields: Vec::new(),
        number_fields: Vec::new(),
        date_fields: Vec::new(),
        bool_fields: Vec::new(),
        present_fields: Vec::new(),
    };
    proof {
        assert(tcs.skip(0) == tcs);
        assert(opt_strings_view(b.text_cols@) =~= seq![]);
        assert(strings_view(b.present_fields@) =~= seq![]);
        assert(multi_strings_view(b.keyword_fields@) =~= seq![]);
        assert(multi_strings_view(b.number_fields@) =~= seq![]);
        assert(multi_ints_view(b.date_fields@) =~= seq![]);
        assert(bools_view(b.bool_fields@) =~= seq![]);
    }
    let mut i: usize = 0;
    while i < cols.len()
        invariant
            i <= cols.len(),
            tcs == pairs_view(cols@),
            doc@ is Object,
            o == doc@->Object_0,
            b.state().keywords.len() == 0,
            b.state().numbers.len() == 0,
            b.state().dates.len() == 0,
            b.state().bools.len() == 0,
            text_phase(o, tcs, seq![], seq![]) == text_phase(o, tcs.skip(i as int), b.state().text_cols, b.state().present),
            tcs == text_fields_spec(schema.entries()),
            o == members_or_empty(doc@),
            doc_path(doc@, "document must be a JSON object"@, "document must have 'path' string field"@) == Ok::<Seq<char>, ErrorView>(path@),
        decreases cols.len() - i,
    {
        proof {
            lemma_skip_first(tcs, i as int);
        }
        let name = &cols[i].0;
        match doc.get(name.as_str()) {
            None => {
                let ghost before = b.text_cols@;
                b.text_cols.push(None);
                assert(opt_strings_view(b.text_cols@) =~= opt_strings_view(before).push(None));
            },
            Some(v) => match v.as_str() {
                Some(s) => {
                    let ghost before = b.text_cols@;
                    let ghost pbefore = b.present_fields@;
                    b.text_cols.push(Some(s.clone()));
                    b.present_fields.push(name.clone());
                    assert(opt_strings_view(b.text_cols@) =~= opt_strings_view(before).push(Some(s@)));
                    assert(strings_view(b.present_fields@) =~= strings_view(pbefore).push(name@));
                },
                None => {
                    return Err(mismatch_error(name.as_str(), "expected string for text field"));
                },
            },
        }
        i += 1;
    }
    let fields = schema.fields();
    let ghost e = schema.entries();
    let ghost st0 = b.state();
    proof {
        assert(st0.keywords =~= seq![]);
        assert(st0.numbers =~= seq![]);
        assert(st0.dates =~= seq![]);
        assert(st0.bools =~= seq![]);
        assert(tcs.skip(cols.len() as int) =~= seq![]);
        assert(text_phase(o, tcs, seq![], seq![]) == Ok::<(Seq<Option<Seq<char>>>, Seq<Seq<char>>), ErrorView>((st0.text_cols, st0.present)));
        assert(st0 == (PutState { text_cols: st0.text_cols, keywords: seq![], numbers: seq![], dates: seq![], bools: seq![], present: st0.present }));
        assert(e.skip(0) == e);
    }
    let mut j: usize = 0;
    while j < fields.len()
        invariant
            j <= fields.len(),
            e == schema.entries(),
            fields@.map_values(|p: (String, FieldSpec)| (p.0@, p.1@)) == e,
            doc@ is Object,
            o == doc@->Object_0,
            field_phase(o, e, st0) == field_phase(o, e.skip(j as int), b.state()),
            o == members_or_empty(doc@),
            text_phase(o, text_fields_spec(e), seq![], seq![]) == Ok::<(Seq<Option<Seq<char>>>, Seq<Seq<char>>), ErrorView>((st0.text_cols, st0.present)),
            st0 == (PutState { text_cols: st0.text_cols, keywords: seq![], numbers: seq![], dates: seq![], bools: seq![], present: st0.present }),
            doc_path(doc@, "document must be a JSON object"@, "document must have 'path' string field"@) == Ok::<Seq<char>, ErrorView>(path@),
        decreases fields.len() - j,
    {
        proof {
            lemma_skip_first(e, j as int);
            assert(e[j as int] == (fields@[j as int].0@, fields@[j as int].1@));
        }
        match b.step(&doc, &fields[j].0, &fields[j].1) {
            Ok(()) => {},
            Err(x) => return Err(x),
        }
        j += 1;
    }
    assert(e.skip(j as int) =~= seq![]);
    let data_json = doc.to_json_string();
    Ok(PutPrepared {
        path,
        data_json,
        text_cols: b.text_cols,
        keyword_fields: b.keyword_fields,
        number_fields: b.number_fields,
        date_fields: b.date_fields,
        bool_fields: b.bool_fields,
        present_fields: b.present_fields,
    })
}

} // verus!
