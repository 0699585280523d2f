//! JSON values as the library reads and writes them: documents, result items
//! and output envelopes. Objects keep their members in ascending key order,
//! each key once.
use vstd::prelude::*;
use crate::schema::{
    lemma_lookup_insert, lemma_lookup_update, lemma_name_lt_irreflexive, lemma_name_lt_total,
    lemma_name_lt_trans, lookup, name_less, name_lt, sorted_names,
};
use crate::text::str_eq;

verus! {

/// A JSON number: `text` is how it is written in JSON; `float_text` is the
/// same number read as a 64-bit float and written as Rust's `Display` writes
/// floats (so `5` for the JSON number `5`, `0.1` for `0.1`).
#[derive(Debug)]
pub struct JsonNumber {
    pub text: String,
    pub float_text: String,
}

/// A JSON value.
#[derive(Debug)]
pub enum JsonValue {
    Null,
    Bool(bool),
    Number(JsonNumber),
    String(String),
    Array(Vec<JsonValue>),
    Object(Vec<(String, JsonValue)>),
}

/// A lower-case hexadecimal digit.
pub open spec fn hex_lower(d: int) -> char {
    if d < 10 {
        ('0' as int + d) as char
    } else {
        ('a' as int + d - 10) as char
    }
}

/// How `serde_json` writes one character inside a string literal: `"` and `\`
/// behind a backslash, `\b \t \n \f \r` for those controls, any other
/// control character below U+0020 as `\u00` and two lower-case hex digits, and
/// every other character as itself.
pub open spec fn json_escape_char(c: char) -> Seq<char> {
    let n = c as u32;
    if c == '"' {
        seq!['\\', '"']
    } else if c == '\\' {
        seq!['\\', '\\']
    } else if n == 8 {
        seq!['\\', 'b']
    } else if n == 9 {
        seq!['\\', 't']
    } else if n == 10 {
        seq!['\\', 'n']
    } else if n == 12 {
        seq!['\\', 'f']
    } else if n == 13 {
        seq!['\\', 'r']
    } else if n < 32 {
        seq!['\\', 'u', '0', '0', hex_lower(n as int / 16), hex_lower(n as int % 16)]
    } else {
        seq![c]
    }
}

/// The characters of `s`, each escaped as `json_escape_char` says.
pub open spec fn json_escaped(s: Seq<char>) -> Seq<char>
    decreases s.len(),
{
    if s.len() == 0 {
        seq![]
    } else {
        json_escaped(s.drop_last()) + json_escape_char(s.last())
    }
}

/// `serde_json`'s text of a JSON string holding `s`: a quote, the escaped
/// characters, a quote.
pub open spec fn spec_json_quote(s: Seq<char>) -> Seq<char> {
    seq!['"'] + json_escaped(s) + seq!['"']
}

/// Trusted: `serde_json::to_string` of a `&str`: the quoted string literal of
/// `spec_json_quote` (serde_json's `format_escaped_str` and its `ESCAPE`
/// table). Writing a string to memory does not fail.
#[verifier::external_body]
pub(crate) fn json_quote(s: &str) -> (r: String)
    ensures
        r@ == spec_json_quote(s@),
{
    match serde_json::to_string(s) {
        Ok(t) => t,
        Err(_) => String::new(),
    }
}

/// The mathematical form of a JSON value; a number is its JSON text and its
/// float text.
pub enum JView {
    Null,
    Bool(bool),
    Number(Seq<char>, Seq<char>),
    Str(Seq<char>),
    Array(Seq<JView>),
    Object(Seq<(Seq<char>, JView)>),
}

pub open spec fn jv(v: JsonValue) -> JView
    decreases v,
{
    match v {
        JsonValue::Null => JView::Null,
        JsonValue::Bool(b) => JView::Bool(b),
        JsonValue::Number(n) => JView::Number(n.text@, n.float_text@),
        JsonValue::String(s) => JView::Str(s@),
        JsonValue::Array(a) => JView::Array(jv_items(a@)),
        JsonValue::Object(o) => JView::Object(jv_members(o@)),
    }
}

pub open spec fn jv_items(s: Seq<JsonValue>) -> Seq<JView>
    decreases s,
{
    if s.len() == 0 {
        seq![]
    } else {
        jv_items(s.drop_last()).push(jv(s.last()))
    }
}

pub open spec fn jv_members(s: Seq<(String, JsonValue)>) -> Seq<(Seq<char>, JView)>
    decreases s,
{
    if s.len() == 0 {
        seq![]
    } else {
        jv_members(s.drop_last()).push((s.last().0@, jv(s.last().1)))
    }
}

impl View for JsonValue {
    type V = JView;

    open spec fn view(&self) -> JView {
        jv(*self)
    }
}

/// The compact JSON text of a value, as `serde_json::to_string` writes it.
pub open spec fn json_text(v: JView) -> Seq<char>
    decreases v,
{
    match v {
        JView::Null => "null"@,
        JView::Bool(b) => if b { "true"@ } else { "false"@ },
        JView::Number(t, _) => t,
        JView::Str(s) => spec_json_quote(s),
        JView::Array(a) => "["@ + items_text(a) + "]"@,
        JView::Object(o) => "{"@ + members_text(o) + "}"@,
    }
}

pub open spec fn items_text(s: Seq<JView>) -> Seq<char>
    decreases s,
{
    if s.len() == 0 {
        seq![]
    } else if s.len() == 1 {
        json_text(s[0])
    } else {
        items_text(s.drop_last()) + ","@ + json_text(s.last())
    }
}

pub open spec fn members_text(s: Seq<(Seq<char>, JView)>) -> Seq<char>
    decreases s,
{
    if s.len() == 0 {
        seq![]
    } else if s.len() == 1 {
        spec_json_quote(s[0].0) + ":"@ + json_text(s[0].1)
    } else {
        members_text(s.drop_last()) + ","@ + spec_json_quote(s.last().0) + ":"@ + json_text(s.last().1)
    }
}


pub proof fn lemma_jv_items(s: Seq<JsonValue>)
    ensures
        jv_items(s).len() == s.len(),
        forall|i: int| 0 <= i < s.len() ==> #[trigger] jv_items(s)[i] == jv(s[i]),
    decreases s.len(),
{
    if s.len() > 0 {
        lemma_jv_items(s.drop_last());
    }
}

pub proof fn lemma_jv_members(s: Seq<(String, JsonValue)>)
    ensures
        jv_members(s).len() == s.len(),
        forall|i: int| 0 <= i < s.len() ==> #[trigger] jv_members(s)[i] == (s[i].0@, jv(s[i].1)),
    decreases s.len(),
{
    if s.len() > 0 {
        lemma_jv_members(s.drop_last());
    }
}

pub proof fn lemma_jv_items_take(s: Seq<JsonValue>, i: int)
    requires
        0 <= i < s.len(),
    ensures
        jv_items(s.take(i + 1)) == jv_items(s.take(i)).push(jv(s[i])),
{
    assert(s.take(i + 1).drop_last() =~= s.take(i));
}

pub proof fn lemma_jv_members_take(s: Seq<(String, JsonValue)>, i: int)
    requires
        0 <= i < s.len(),
    ensures
        jv_members(s.take(i + 1)) == jv_members(s.take(i)).push((s[i].0@, jv(s[i].1))),
{
    assert(s.take(i + 1).drop_last() =~= s.take(i));
}

impl JsonValue {
    /// A copy of the value.
    pub fn copy(&self) -> (r: JsonValue)
        ensures
            r@ == self@,
        decreases self,
    {
        match self {
            JsonValue::Null => JsonValue::Null,
            JsonValue::Bool(b) => JsonValue::Bool(*b),
            JsonValue::Number(n) => JsonValue::Number(JsonNumber { text: n.text.clone(), float_text: n.float_text.clone() }),
            JsonValue::String(s) => JsonValue::String(s.clone()),
            JsonValue::Array(a) => {
                let mut out: Vec<JsonValue> = Vec::new();
                let mut i: usize = 0;
                while i < a.len()
                    invariant
                        i <= a.len(),
                        *self == JsonValue::Array(*a),
                        jv_items(out@) == jv_items(a@.take(i as int)),
                    decreases a.len() - i,
                {
                    proof {
                        lemma_jv_items_take(a@, i as int);
                    }
                    proof {
                        vstd::std_specs::vec::axiom_vec_index_decreases(*a, i as int);
                        assert(decreases_to!(*self => (*self)->Array_0));
                        assert(decreases_to!(*a => a[i as int]));
                    }
                    let x = a[i].copy();
                    let ghost before = out@;
                    out.push(x);
                    assert(out@.drop_last() == before);
                    i += 1;
                }
                assert(a@.take(a.len() as int) == a@);
                JsonValue::Array(out)
            },
            JsonValue::Object(o) => {
                let mut out: Vec<(String, JsonValue)> = Vec::new();
                let mut i: usize = 0;
                while i < o.len()
                    invariant
                        i <= o.len(),
                        *self == JsonValue::Object(*o),
                        jv_members(out@) == jv_members(o@.take(i as int)),
                    decreases o.len() - i,
                {
                    proof {
                        lemma_jv_members_take(o@, i as int);
                    }
                    let k = o[i].0.clone();
                    proof {
                        vstd::std_specs::vec::axiom_vec_index_decreases(*o, i as int);
                        assert(decreases_to!(*self => (*self)->Object_0));
                        assert(decreases_to!(*o => o[i as int]));
                        assert(decreases_to!(o[i as int] => o[i as int].1));
                    }
                    let x = o[i].1.copy();
                    let ghost before = out@;
                    out.push((k, x));
                    assert(out@.drop_last() == before);
                    i += 1;
                }
                assert(o@.take(o.len() as int) == o@);
                JsonValue::Object(out)
            },
        }
    }

    /// The compact JSON text of the value.
    pub fn to_json_string(&self) -> (r: String)
        ensures
            r@ == json_text(self@),
        decreases self,
    {
        match self {
            JsonValue::Null => String::from_str("null"),
            JsonValue::Bool(b) => if *b { String::from_str("true") } else { String::from_str("false") },
            JsonValue::Number(n) => n.text.clone(),
            JsonValue::String(s) => json_quote(s.as_str()),
            JsonValue::Array(a) => {
                let mut out = String::from_str("[");
                let mut i: usize = 0;
                while i < a.len()
                    invariant
                        i <= a.len(),
                        *self == JsonValue::Array(*a),
                        out@ == "["@ + items_text(jv_items(a@.take(i as int))),
                    decreases a.len() - i,
                {
                    proof {
                        lemma_jv_items_take(a@, i as int);
                        lemma_jv_items(a@.take(i as int));
                    }
                    if i > 0 {
                        out.append(",");
                    }
                    proof {
                        vstd::std_specs::vec::axiom_vec_index_decreases(*a, i as int);
                        assert(decreases_to!(*self => (*self)->Array_0));
                        assert(decreases_to!(*a => a[i as int]));
                    }
                    let t = a[i].to_json_string();
                    out.append(t.as_str());
                    proof {
                        let sv = jv_items(a@.take(i + 1));
                        assert(sv.drop_last() == jv_items(a@.take(i as int)));
                        if i == 0 {
                            assert(sv.len() == 1);
                        }
                    }
                    i += 1;
                }
                assert(a@.take(a.len() as int) == a@);
                out.append("]");
                out
            },
            JsonValue::Object(o) => {
                let mut out = String::from_str("{");
                let mut i: usize = 0;
                while i < o.len()
                    invariant
                        i <= o.len(),
                        *self == JsonValue::Object(*o),
                        out@ == "{"@ + members_text(jv_members(o@.take(i as int))),
                    decreases o.len() - i,
                {
                    proof {
                        lemma_jv_members_take(o@, i as int);
                        lemma_jv_members(o@.take(i as int));
                    }
                    if i > 0 {
                        out.append(",");
                    }
                    out.append(json_quote(o[i].0.as_str()).as_str());
                    out.append(":");
                    proof {
                        vstd::std_specs::vec::axiom_vec_index_decreases(*o, i as int);
                        assert(decreases_to!(*self => (*self)->Object_0));
                        assert(decreases_to!(*o => o[i as int]));
                        assert(decreases_to!(o[i as int] => o[i as int].1));
                    }
                    let t = o[i].1.to_json_string();
                    out.append(t.as_str());
                    proof {
                        let sv = jv_members(o@.take(i + 1));
                        assert(sv.drop_last() == jv_members(o@.take(i as int)));
                        if i == 0 {
                            assert(sv.len() == 1);
                        }
                    }
                    i += 1;
                }
                assert(o@.take(o.len() as int) == o@);
                out.append("}");
                out
            },
        }
    }
}


/// Two-space indentation `d` levels deep.
pub open spec fn indent(d: nat) -> Seq<char>
    decreases d,
{
    if d == 0 {
        seq![]
    } else {
        indent((d - 1) as nat) + "  "@
    }
}

/// The indented JSON text of a value at depth `d`, as
/// `serde_json::to_string_pretty` writes it.
pub open spec fn pretty_text(v: JView, d: nat) -> Seq<char>
    decreases v,
{
    match v {
        JView::Array(a) => if a.len() == 0 {
            "[]"@
        } else {
            "[\n"@ + pretty_items(a, d + 1) + "\n"@ + indent(d) + "]"@
        },
        JView::Object(o) => if o.len() == 0 {
            "{}"@
        } else {
            "{\n"@ + pretty_members(o, d + 1) + "\n"@ + indent(d) + "}"@
        },
        _ => json_text(v),
    }
}

pub open spec fn pretty_items(s: Seq<JView>, d: nat) -> Seq<char>
    decreases s,
{
    if s.len() == 0 {
        seq![]
    } else if s.len() == 1 {
        indent(d) + pretty_text(s[0], d)
    } else {
        pretty_items(s.drop_last(), d) + ",\n"@ + indent(d) + pretty_text(s.last(), d)
    }
}

pub open spec fn pretty_members(s: Seq<(Seq<char>, JView)>, d: nat) -> Seq<char>
    decreases s,
{
    if s.len() == 0 {
        seq![]
    } else if s.len() == 1 {
        indent(d) + spec_json_quote(s[0].0) + ": "@ + pretty_text(s[0].1, d)
    } else {
        pretty_members(s.drop_last(), d) + ",\n"@ + indent(d) + spec_json_quote(s.last().0) + ": "@ + pretty_text(s.last().1, d)
    }
}

impl JsonValue {
    fn pretty_at(&self, ind0: &String, Ghost(d): Ghost<nat>) -> (r: String)
        requires
            ind0@ == indent(d),
        ensures
            r@ == pretty_text(self@, d),
        decreases self,
    {
        match self {
            JsonValue::Array(a) => {
                if a.len() == 0 {
                    return String::from_str("[]");
                }
                let mut out = String::from_str("[\n");
                let mut i: usize = 0;
                let mut ind = ind0.clone();
                ind.append("  ");
                while i < a.len()
                    invariant
                        i <= a.len(),
                        ind@ == indent(d + 1),
                        *self == JsonValue::Array(*a),
                        out@ == "[\n"@ + pretty_items(jv_items(a@.take(i as int)), d + 1),
                    decreases a.len() - i,
                {
                    proof {
                        lemma_jv_items_take(a@, i as int);
                        lemma_jv_items(a@.take(i as int));
                        vstd::std_specs::vec::axiom_vec_index_decreases(*a, i as int);
                        assert(decreases_to!(*self => (*self)->Array_0));
                        assert(decreases_to!(*a => a[i as int]));
                    }
                    if i > 0 {
                        out.append(",\n");
                    }
                    out.append(ind.as_str());
                    let t = a[i].pretty_at(&ind, Ghost(d + 1));
                    out.append(t.as_str());
                    proof {
                        let sv = jv_items(a@.take(i + 1));
                        assert(sv.drop_last() == jv_items(a@.take(i as int)));
                        if i == 0 {
                            assert(sv.len() == 1);
                        }
                    }
                    i += 1;
                }
                assert(a@.take(a.len() as int) == a@);
                proof {
                    lemma_jv_items(a@);
                }
                out.append("\n");
                out.append(ind0.as_str());
                out.append("]");
                out
            },
            JsonValue::Object(o) => {
                if o.len() == 0 {
                    return String::from_str("{}");
                }
                let mut out = String::from_str("{\n");
                let mut i: usize = 0;
                let mut ind = ind0.clone();
                ind.append("  ");
                while i < o.len()
                    invariant
                        i <= o.len(),
                        ind@ == indent(d + 1),
                        *self == JsonValue::Object(*o),
                        out@ == "{\n"@ + pretty_members(jv_members(o@.take(i as int)), d + 1),
                    decreases o.len() - i,
                {
                    proof {
                        lemma_jv_members_take(o@, i as int);
                        lemma_jv_members(o@.take(i as int));
                        vstd::std_specs::vec::axiom_vec_index_decreases(*o, i as int);
                        assert(decreases_to!(*self => (*self)->Object_0));
                        assert(decreases_to!(*o => o[i as int]));
                        assert(decreases_to!(o[i as int] => o[i as int].1));
                    }
                    if i > 0 {
                        out.append(",\n");
                    }
                    out.append(ind.as_str());
                    out.append(json_quote(o[i].0.as_str()).as_str());
                    out.append(": ");
                    let t = o[i].1.pretty_at(&ind, Ghost(d + 1));
                    out.append(t.as_str());
                    proof {
                        let sv = jv_members(o@.take(i + 1));
                        assert(sv.drop_last() == jv_members(o@.take(i as int)));
                        if i == 0 {
                            assert(sv.len() == 1);
                        }
                    }
                    i += 1;
                }
                assert(o@.take(o.len() as int) == o@);
                proof {
                    lemma_jv_members(o@);
                }
                out.append("\n");
                out.append(ind0.as_str());
                out.append("}");
                out
            },
            _ => self.to_json_string(),
        }
    }

    /// The indented JSON text of the value, as `serde_json::to_string_pretty`
    /// writes it.
    pub fn to_json_pretty(&self) -> (r: String)
        ensures
            r@ == pretty_text(self@, 0),
    {
        self.pretty_at(&String::new(), Ghost(0))
    }
}


impl JsonValue {
    /// The member under `key` of an object; `None` for a missing key or a value
    /// that is not an object.
    pub fn get(&self, key: &str) -> (r: Option<&JsonValue>)
        ensures
            match self@ {
                JView::Object(o) => match r {
                    Some(x) => lookup(o, key@) == Some(x@),
                    None => lookup(o, key@) is None,
                },
                _ => r is None,
            },
    {
        match self {
            JsonValue::Object(o) => {
                let ghost e = jv_members(o@);
                proof {
                    lemma_jv_members(o@);
                }
                let mut i: usize = 0;
                assert(e.skip(0) == e);
                while i < o.len()
                    invariant
                        i <= o.len(),
                        *self == JsonValue::Object(*o),
                        e == jv_members(o@),
                        e.len() == o.len(),
                        forall|j: int| 0 <= j < o.len() ==> #[trigger] e[j] == (o@[j].0@, jv(o@[j].1)),
                        lookup(e, key@) == lookup(e.skip(i as int), key@),
                    decreases o.len() - i,
                {
                    assert(e.skip(i as int)[0] == e[i as int]);
                    assert(e.skip(i as int).drop_first() == e.skip(i + 1));
                    if str_eq(o[i].0.as_str(), key) {
                        return Some(&o[i].1);
                    }
                    i += 1;
                }
                None
            },
            _ => None,
        }
    }

    /// The text of a string value.
    pub fn as_str(&self) -> (r: Option<&String>)
        ensures
            match self@ {
                JView::Str(s) => r is Some && r->0@ == s,
                _ => r is None,
            },
    {
        match self {
            JsonValue::String(s) => Some(s),
            _ => None,
        }
    }

    /// The value of a boolean.
    pub fn as_bool(&self) -> (r: Option<bool>)
        ensures
            match self@ {
                JView::Bool(b) => r == Some(b),
                _ => r is None,
            },
    {
        match self {
            JsonValue::Bool(b) => Some(*b),
            _ => None,
        }
    }

    /// The elements of an array.
    pub fn as_array(&self) -> (r: Option<&Vec<JsonValue>>)
        ensures
            match self@ {
                JView::Array(a) => r is Some && jv_items(r->0@) == a,
                _ => r is None,
            },
    {
        match self {
            JsonValue::Array(a) => Some(a),
            _ => None,
        }
    }

    /// The members of an object.
    pub fn as_object(&self) -> (r: Option<&Vec<(String, JsonValue)>>)
        ensures
            match self@ {
                JView::Object(o) => r is Some && jv_members(r->0@) == o,
                _ => r is None,
            },
    {
        match self {
            JsonValue::Object(o) => Some(o),
            _ => None,
        }
    }
}

/// Every object in the value keeps its keys in ascending order.
pub open spec fn json_wf(v: JView) -> bool
    decreases v,
{
    match v {
        JView::Array(a) => items_wf(a),
        JView::Object(o) => sorted_names(o) && members_wf(o),
        _ => true,
    }
}

pub open spec fn items_wf(s: Seq<JView>) -> bool
    decreases s,
{
    s.len() > 0 ==> items_wf(s.drop_last()) && json_wf(s.last())
}

pub open spec fn members_wf(s: Seq<(Seq<char>, JView)>) -> bool
    decreases s,
{
    s.len() > 0 ==> members_wf(s.drop_last()) && json_wf(s.last().1)
}

/// Set the member `key` of an object to `val`: replace it where the key
/// occurs, else insert it in key order.
pub fn obj_insert(o: &mut Vec<(String, JsonValue)>, key: String, val: JsonValue)
    requires
        sorted_names(jv_members(old(o)@)),
    ensures
        sorted_names(jv_members(final(o)@)),
        forall|n: Seq<char>| #[trigger] lookup(jv_members(final(o)@), n) == (if n == key@ {
            Some(val@)
        } else {
            lookup(jv_members(old(o)@), n)
        }),
        jv_members(final(o)@).len() == jv_members(old(o)@).len() + (if lookup(jv_members(old(o)@), key@) is Some { 0int } else { 1int }),
{
    let ghost old_e = jv_members(o@);
    proof {
        lemma_jv_members(o@);
    }
    let mut k: usize = 0;
    while k < o.len() && name_less(o[k].0.as_str(), key.as_str())
        invariant
            k <= o.len(),
            old_e == jv_members(o@),
            old_e.len() == o.len(),
            forall|j: int| 0 <= j < o.len() ==> #[trigger] old_e[j] == (o@[j].0@, jv(o@[j].1)),
            sorted_names(old_e),
            forall|i: int| 0 <= i < k ==> name_lt(#[trigger] old_e[i].0, key@),
        decreases o.len() - k,
    {
        k += 1;
    }
    let ghost ne = (key@, val@);
    if k < o.len() && str_eq(o[k].0.as_str(), key.as_str()) {
        let ghost new_e = old_e.update(k as int, ne);
        proof {
            assert forall|i: int, j: int| 0 <= i < j < new_e.len() implies name_lt(#[trigger] new_e[i].0, #[trigger] new_e[j].0) by {
                assert(old_e[i].0 == new_e[i].0 || i == k);
                assert(old_e[j].0 == new_e[j].0 || j == k);
            }
            assert forall|n: Seq<char>| #[trigger] lookup(new_e, n) == (if n == ne.0 { Some(ne.1) } else { lookup(old_e, n) }) by {
                lemma_lookup_update(old_e, k as int, ne, n);
            }
            crate::schema::lemma_lookup_at(old_e, k as int);
        }
        o.set(k, (key, val));
        proof {
            lemma_jv_members(o@);
            assert(jv_members(o@) =~= new_e);
        }
    } else {
        let ghost new_e = old_e.insert(k as int, ne);
        proof {
            if k < old_e.len() {
                lemma_name_lt_total(old_e[k as int].0, key@);
            }
            assert forall|m: int| k <= m < old_e.len() implies name_lt(key@, #[trigger] old_e[m].0) by {
                if m > k {
                    lemma_name_lt_trans(key@, old_e[k as int].0, old_e[m].0);
                }
            }
            assert forall|i: int, j: int| 0 <= i < j < new_e.len() implies name_lt(#[trigger] new_e[i].0, #[trigger] new_e[j].0) by {
                if j < k {
                    assert(new_e[i] == old_e[i] && new_e[j] == old_e[j]);
                } else if j == k {
                    assert(new_e[i] == old_e[i]);
                } else if i == k {
                    assert(new_e[j] == old_e[j - 1]);
                } else if i < k {
                    assert(new_e[i] == old_e[i] && new_e[j] == old_e[j - 1]);
                    lemma_name_lt_trans(old_e[i].0, key@, old_e[j - 1].0);
                } else {
                    assert(new_e[i] == old_e[i - 1] && new_e[j] == old_e[j - 1]);
                }
            }
            assert forall|i: int| 0 <= i < old_e.len() implies (#[trigger] old_e[i]).0 != ne.0 by {
                lemma_name_lt_irreflexive(key@);
            }
            assert forall|n: Seq<char>| #[trigger] lookup(new_e, n) == (if n == ne.0 { Some(ne.1) } else { lookup(old_e, n) }) by {
                lemma_lookup_insert(old_e, k as int, ne, n);
            }
            crate::schema::lemma_lookup_absent(old_e, key@);
        }
        o.insert(k, (key, val));
        proof {
            lemma_jv_members(o@);
            assert(jv_members(o@) =~= new_e);
        }
    }
}

} // verus!
