//! Index schemas: named, typed fields.
use vstd::prelude::*;
use crate::error::{ErrorView, MinistoreError};
use crate::text::{chars_of, concat3, is_ascii_digit, is_digit_spec, str_eq};

verus! {

/// The kind of values a field holds.
#[derive(Debug, Copy, Clone, PartialEq, Eq, Structural)]
pub enum FieldType {
    Keyword,
    Text,
    Number,
    Date,
    Bool,
}

/// How one field is indexed. A weight (text fields only) is the floating-point
/// number written as Rust's `Display` writes it, such as `3` or `0.5`.
#[derive(Debug, PartialEq)]
pub struct FieldSpec {
    pub field_type: FieldType,
    pub multi: bool,
    pub weight: Option<String>,
}

impl Clone for FieldSpec {
    fn clone(&self) -> (r: Self)
        ensures
            r@ == self@,
    {
        FieldSpec {
            field_type: self.field_type,
            multi: self.multi,
            weight: match &self.weight {
                Some(w) => Some(w.clone()),
                None => None,
            },
        }
    }
}

/// The mathematical form of a field spec.
pub struct SField {
    pub field_type: FieldType,
    pub multi: bool,
    pub weight: Option<Seq<char>>,
}

impl View for FieldSpec {
    type V = SField;

    open spec fn view(&self) -> SField {
        SField {
            field_type: self.field_type,
            multi: self.multi,
            weight: match self.weight {
                Some(w) => Some(w@),
                None => None,
            },
        }
    }
}

/// Lexicographic order of character sequences, by code point; for strings it
/// is the byte order of their UTF-8 encodings.
pub open spec fn name_lt(a: Seq<char>, b: Seq<char>) -> bool
    decreases a.len(),
{
    if a.len() == 0 {
        b.len() > 0
    } else if b.len() == 0 {
        false
    } else if a[0] != b[0] {
        a[0] < b[0]
    } else {
        name_lt(a.drop_first(), b.drop_first())
    }
}

pub proof fn lemma_name_lt_irreflexive(a: Seq<char>)
    ensures
        !name_lt(a, a),
    decreases a.len(),
{
    if a.len() > 0 {
        lemma_name_lt_irreflexive(a.drop_first());
    }
}

pub proof fn lemma_name_lt_total(a: Seq<char>, b: Seq<char>)
    ensures
        a == b || name_lt(a, b) || name_lt(b, a),
    decreases a.len(),
{
    if a.len() > 0 && b.len() > 0 && a[0] == b[0] {
        lemma_name_lt_total(a.drop_first(), b.drop_first());
        if a.drop_first() == b.drop_first() {
            assert(a == seq![a[0]] + a.drop_first());
            assert(b == seq![b[0]] + b.drop_first());
        }
    } else if a.len() == 0 && b.len() == 0 {
        assert(a == b);
    }
}

pub proof fn lemma_name_lt_asym(a: Seq<char>, b: Seq<char>)
    ensures
        name_lt(a, b) ==> !name_lt(b, a),
    decreases a.len(),
{
    if a.len() > 0 && b.len() > 0 && a[0] == b[0] {
        lemma_name_lt_asym(a.drop_first(), b.drop_first());
    }
}

pub proof fn lemma_name_lt_trans(a: Seq<char>, b: Seq<char>, c: Seq<char>)
    requires
        name_lt(a, b),
        name_lt(b, c),
    ensures
        name_lt(a, c),
    decreases a.len(),
{
    if a.len() > 0 && b.len() > 0 && c.len() > 0 && a[0] == b[0] && b[0] == c[0] {
        lemma_name_lt_trans(a.drop_first(), b.drop_first(), c.drop_first());
    }
}

/// Compares two names by `name_lt`.
pub fn name_less(a: &str, b: &str) -> (r: bool)
    ensures
        r == name_lt(a@, b@),
{
    let x = chars_of(a);
    let y = chars_of(b);
    let mut i: usize = 0;
    assert(x@.skip(0) == x@ && y@.skip(0) == y@);
    while i < x.len() && i < y.len() && x[i] == y[i]
        invariant
            i <= x.len(),
            i <= y.len(),
            name_lt(x@, y@) == name_lt(x@.skip(i as int), y@.skip(i as int)),
        decreases x.len() - i,
    {
        assert(x@.skip(i as int).drop_first() == x@.skip(i + 1));
        assert(y@.skip(i as int).drop_first() == y@.skip(i + 1));
        i += 1;
    }
    if i == x.len() {
        i < y.len()
    } else if i == y.len() {
        false
    } else {
        x[i] < y[i]
    }
}

/// Names in strictly increasing order, so each name occurs once.
pub open spec fn sorted_names<V>(e: Seq<(Seq<char>, V)>) -> bool {
    forall|i: int, j: int| 0 <= i < j < e.len() ==> name_lt(#[trigger] e[i].0, #[trigger] e[j].0)
}

/// The field spec stored under `name`.
pub open spec fn lookup<V>(e: Seq<(Seq<char>, V)>, name: Seq<char>) -> Option<V>
    decreases e.len(),
{
    if e.len() == 0 {
        None
    } else if e[0].0 == name {
        Some(e[0].1)
    } else {
        lookup(e.drop_first(), name)
    }
}

pub proof fn lemma_lookup_at<V>(e: Seq<(Seq<char>, V)>, i: int)
    requires
        sorted_names(e),
        0 <= i < e.len(),
    ensures
        lookup(e, e[i].0) == Some(e[i].1),
    decreases i,
{
    if i > 0 {
        lemma_name_lt_irreflexive(e[0].0);
        assert(name_lt(e[0].0, e[i].0));
        assert(e.drop_first()[i - 1] == e[i]);
        assert(sorted_names(e.drop_first())) by {
            assert forall|a: int, b: int| 0 <= a < b < e.drop_first().len() implies name_lt(#[trigger] e.drop_first()[a].0, #[trigger] e.drop_first()[b].0) by {
                assert(e.drop_first()[a] == e[a + 1]);
                assert(e.drop_first()[b] == e[b + 1]);
            }
        }
        lemma_lookup_at(e.drop_first(), i - 1);
    }
}

pub proof fn lemma_lookup_absent<V>(e: Seq<(Seq<char>, V)>, n: Seq<char>)
    requires
        forall|i: int| 0 <= i < e.len() ==> (#[trigger] e[i]).0 != n,
    ensures
        lookup(e, n) is None,
    decreases e.len(),
{
    if e.len() > 0 {
        assert forall|i: int| 0 <= i < e.drop_first().len() implies (#[trigger] e.drop_first()[i]).0 != n by {
            assert(e.drop_first()[i] == e[i + 1]);
        }
        lemma_lookup_absent(e.drop_first(), n);
    }
}

pub proof fn lemma_sorted_tail<V>(e: Seq<(Seq<char>, V)>)
    requires
        sorted_names(e),
        e.len() > 0,
    ensures
        sorted_names(e.drop_first()),
{
    assert forall|a: int, b: int| 0 <= a < b < e.drop_first().len() implies name_lt(#[trigger] e.drop_first()[a].0, #[trigger] e.drop_first()[b].0) by {
        assert(e.drop_first()[a] == e[a + 1]);
        assert(e.drop_first()[b] == e[b + 1]);
    }
}

pub proof fn lemma_lookup_insert<V>(e: Seq<(Seq<char>, V)>, k: int, ne: (Seq<char>, V), n: Seq<char>)
    requires
        0 <= k <= e.len(),
        forall|i: int| 0 <= i < e.len() ==> (#[trigger] e[i]).0 != ne.0,
    ensures
        lookup(e.insert(k, ne), n) == (if n == ne.0 { Some(ne.1) } else { lookup(e, n) }),
    decreases k,
{
    if k == 0 {
        assert(e.insert(0, ne).drop_first() =~= e);
    } else {
        assert(e.insert(k, ne)[0] == e[0]);
        assert(e.insert(k, ne).drop_first() =~= e.drop_first().insert(k - 1, ne));
        assert forall|i: int| 0 <= i < e.drop_first().len() implies (#[trigger] e.drop_first()[i]).0 != ne.0 by {
            assert(e.drop_first()[i] == e[i + 1]);
        }
        lemma_lookup_insert(e.drop_first(), k - 1, ne, n);
    }
}

pub proof fn lemma_lookup_update<V>(e: Seq<(Seq<char>, V)>, k: int, ne: (Seq<char>, V), n: Seq<char>)
    requires
        sorted_names(e),
        0 <= k < e.len(),
        e[k].0 == ne.0,
    ensures
        lookup(e.update(k, ne), n) == (if n == ne.0 { Some(ne.1) } else { lookup(e, n) }),
    decreases k,
{
    if k == 0 {
        assert(e.update(0, ne).drop_first() =~= e.drop_first());
    } else {
        assert(e.update(k, ne)[0] == e[0]);
        assert(name_lt(e[0].0, e[k].0));
        lemma_name_lt_irreflexive(e[0].0);
        assert(e.update(k, ne).drop_first() =~= e.drop_first().update(k - 1, ne));
        lemma_sorted_tail(e);
        lemma_lookup_update(e.drop_first(), k - 1, ne, n);
    }
}

/// The fields of an index, in ascending order of name.
#[derive(Debug, PartialEq)]
pub struct Schema {
    fields: Vec<(String, FieldSpec)>,
}

impl Clone for Schema {
    fn clone(&self) -> (r: Self)
        ensures
            r.entries() == self.entries(),
    {
        proof {
            use_type_invariant(self);
        }
        let mut fields: Vec<(String, FieldSpec)> = Vec::new();
        let mut i: usize = 0;
        while i < self.fields.len()
            invariant
                i <= self.fields.len(),
                fields@.map_values(|p: (String, FieldSpec)| (p.0@, p.1@)) == self.entries().take(i as int),
            decreases self.fields.len() - i,
        {
            let ghost before = fields@;
            let name = self.fields[i].0.clone();
            let spec = self.fields[i].1.clone();
            let ghost gv = (name@, spec@);
            assert(gv == self.entries()[i as int]);
            fields.push((name, spec));
            assert(fields@.map_values(|p: (String, FieldSpec)| (p.0@, p.1@)) =~= before.map_values(|p: (String, FieldSpec)| (p.0@, p.1@)).push(gv));
            assert(fields@.map_values(|p: (String, FieldSpec)| (p.0@, p.1@)) =~= self.entries().take(i + 1));
            i += 1;
        }
        assert(self.entries().take(self.fields.len() as int) =~= self.entries());
        Schema { fields }
    }
}

impl Schema {
    /// The fields as (name, spec) pairs, in ascending order of name.
    pub closed spec fn entries(&self) -> Seq<(Seq<char>, SField)> {
        self.fields@.map_values(|p: (String, FieldSpec)| (p.0@, p.1@))
    }

    #[verifier::type_invariant]
    spec fn wf(self) -> bool {
        sorted_names(self.entries())
    }

    /// The fields as a map from name to spec.
    pub open spec fn field_map(&self) -> Map<Seq<char>, SField> {
        Map::new(|n: Seq<char>| lookup(self.entries(), n) is Some, |n: Seq<char>| lookup(self.entries(), n)->0)
    }

    /// Create a new empty schema.
    pub fn new() -> (s: Self)
        ensures
            s.entries() == Seq::<(Seq<char>, SField)>::empty(),
    {
        Schema { fields: Vec::new() }
    }

    /// The (name, spec) pairs of the schema, in ascending order of name.
    pub fn fields(&self) -> (r: &Vec<(String, FieldSpec)>)
        ensures
            r@.map_values(|p: (String, FieldSpec)| (p.0@, p.1@)) == self.entries(),
            sorted_names(self.entries()),
    {
        proof {
            use_type_invariant(self);
        }
        &self.fields
    }

    /// Number of fields.
    pub fn len(&self) -> (n: usize)
        ensures
            n == self.entries().len(),
    {
        self.fields.len()
    }

    /// Add a field to the schema, replacing the spec of a field of that name.
    pub fn add_field(&mut self, name: &str, spec: FieldSpec)
        ensures
            sorted_names(final(self).entries()),
            final(self).field_map() == old(self).field_map().insert(name@, spec@),
    {
        proof {
            use_type_invariant(&*self);
        }
        let ghost old_e = self.entries();
        let mut k: usize = 0;
        while k < self.fields.len() && name_less(self.fields[k].0.as_str(), name)
            invariant
                k <= self.fields.len(),
                self.entries() == old_e,
                sorted_names(old_e),
                forall|i: int| 0 <= i < k ==> name_lt(#[trigger] old_e[i].0, name@),
            decreases self.fields.len() - k,
        {
            k += 1;
        }
        let ghost ne = (name@, spec@);
        if k < self.fields.len() && str_eq(self.fields[k].0.as_str(), name) {
            let ghost new_e = old_e.update(k as int, ne);
            proof {
                assert forall|i: int, j: int| 0 <= i < j < new_e.len() implies name_lt(#[trigger] new_e[i].0, #[trigger] new_e[j].0) by {
                    assert(old_e[i].0 == new_e[i].0 || i == k);
                    assert(old_e[j].0 == new_e[j].0 || j == k);
                }
                assert forall|n: Seq<char>| #[trigger] lookup(new_e, n) == (if n == ne.0 { Some(ne.1) } else { lookup(old_e, n) }) by {
                    lemma_lookup_update(old_e, k as int, ne, n);
                }
            }
            let mut fields: Vec<(String, FieldSpec)> = Vec::new();
            std::mem::swap(&mut fields, &mut self.fields);
            fields.set(k, (name.to_owned(), spec));
            assert(fields@.map_values(|p: (String, FieldSpec)| (p.0@, p.1@)) =~= new_e);
            self.fields = fields;
            assert(self.entries() =~= new_e);
            assert(self.field_map() =~= old(self).field_map().insert(name@, spec@));
        } else {
            let ghost new_e = old_e.insert(k as int, ne);
            proof {
                if k < old_e.len() {
                    lemma_name_lt_total(old_e[k as int].0, name@);
                }
                assert forall|m: int| k <= m < old_e.len() implies name_lt(name@, #[trigger] old_e[m].0) by {
                    if m > k {
                        lemma_name_lt_trans(name@, old_e[k as int].0, old_e[m].0);
                    }
                }
                assert forall|i: int, j: int| 0 <= i < j < new_e.len() implies name_lt(#[trigger] new_e[i].0, #[trigger] new_e[j].0) by {
                    if j < k {
                        assert(new_e[i] == old_e[i] && new_e[j] == old_e[j]);
                    } else if j == k {
                        assert(new_e[i] == old_e[i]);
                    } else if i == k {
                        assert(new_e[j] == old_e[j - 1]);
                    } else if i < k {
                        assert(new_e[i] == old_e[i] && new_e[j] == old_e[j - 1]);
                        lemma_name_lt_trans(old_e[i].0, name@, old_e[j - 1].0);
                    } else {
                        assert(new_e[i] == old_e[i - 1] && new_e[j] == old_e[j - 1]);
                    }
                }
                assert forall|i: int| 0 <= i < old_e.len() implies (#[trigger] old_e[i]).0 != ne.0 by {
                    if i < k {
                        lemma_name_lt_irreflexive(name@);
                    } else {
                        lemma_name_lt_irreflexive(name@);
                    }
                }
                assert forall|n: Seq<char>| #[trigger] lookup(new_e, n) == (if n == ne.0 { Some(ne.1) } else { lookup(old_e, n) }) by {
                    lemma_lookup_insert(old_e, k as int, ne, n);
                }
            }
            let mut fields: Vec<(String, FieldSpec)> = Vec::new();
            std::mem::swap(&mut fields, &mut self.fields);
            fields.insert(k, (name.to_owned(), spec));
            assert(fields@.map_values(|p: (String, FieldSpec)| (p.0@, p.1@)) =~= new_e);
            self.fields = fields;
            assert(self.entries() =~= new_e);
            assert(self.field_map() =~= old(self).field_map().insert(name@, spec@));
        }
    }
}


pub open spec fn ascii_letter(c: char) -> bool {
    ('A' <= c && c <= 'Z') || ('a' <= c && c <= 'z')
}

pub open spec fn ascii_digit(c: char) -> bool {
    '0' <= c && c <= '9'
}

/// A field name matches `^[A-Za-z_][A-Za-z0-9_]*$`.
pub open spec fn field_name_ok(n: Seq<char>) -> bool {
    &&& n.len() > 0
    &&& (ascii_letter(n[0]) || n[0] == '_')
    &&& forall|i: int| 1 <= i < n.len() ==> (ascii_letter(#[trigger] n[i]) || ascii_digit(n[i]) || n[i] == '_')
}

/// Trusted: `regex::Regex::new("^[A-Za-z_][A-Za-z0-9_]*$")` and `Regex::is_match`.
/// The pattern compiles; it matches exactly the names `field_name_ok` describes:
/// an ASCII letter or underscore, then ASCII letters, digits or underscores, up
/// to the end of the text.
#[verifier::external_body]
fn field_name_matches(name: &str) -> (r: bool)
    ensures
        r == field_name_ok(name@),
{
    match regex::Regex::new("^[A-Za-z_][A-Za-z0-9_]*$") {
        Ok(re) => re.is_match(name),
        Err(_) => false,
    }
}

/// Digits, with at most one dot between two of them: how `f64`'s `Display`
/// writes a finite number that is not negative.
pub open spec fn plain_decimal(w: Seq<char>) -> bool {
    &&& w.len() > 0
    &&& is_digit_spec(w[0])
    &&& is_digit_spec(w.last())
    &&& forall|i: int| 0 <= i < w.len() ==> is_digit_spec(#[trigger] w[i]) || w[i] == '.'
    &&& forall|i: int, j: int| 0 <= i < j < w.len() ==> !(#[trigger] w[i] == '.' && #[trigger] w[j] == '.')
}

/// A weight, written as `f64`'s `Display` writes it, is accepted when the
/// number is positive (`NaN` included, as `w <= 0.0` is false for it): `NaN`,
/// `inf`, or a plain decimal with a non-zero digit. Negative numbers, zero,
/// and any other text are refused.
pub open spec fn weight_positive(w: Seq<char>) -> bool {
    ||| w == "NaN"@
    ||| w == "inf"@
    ||| plain_decimal(w) && exists|i: int| 0 <= i < w.len() && '1' <= #[trigger] w[i] <= '9'
}

pub open spec fn reserved_name(n: Seq<char>) -> bool {
    n == "path"@ || n == "created"@ || n == "updated"@
}

/// The check one field must pass.
pub open spec fn field_check(name: Seq<char>, f: SField) -> Result<(), ErrorView> {
    if !field_name_ok(name) {
        Err(ErrorView::Schema("invalid field name '"@ + name + "': must match [A-Za-z_][A-Za-z0-9_]*"@))
    } else if reserved_name(name) {
        Err(ErrorView::Schema("field name '"@ + name + "' is reserved"@))
    } else {
        match f.weight {
            Some(w) => if f.field_type != FieldType::Text {
                Err(ErrorView::Schema("weight can only be specified for text fields, not '"@ + name + "'"@))
            } else if !weight_positive(w) {
                Err(ErrorView::Schema("weight for field '"@ + name + "' must be positive"@))
            } else {
                Ok(())
            },
            None => Ok(()),
        }
    }
}

/// The first field, in name order, that fails its check.
pub open spec fn fields_check(e: Seq<(Seq<char>, SField)>) -> Result<(), ErrorView>
    decreases e.len(),
{
    if e.len() == 0 {
        Ok(())
    } else {
        match field_check(e[0].0, e[0].1) {
            Ok(()) => fields_check(e.drop_first()),
            Err(x) => Err(x),
        }
    }
}

/// A schema is valid when it has a field and every field passes its check.
pub open spec fn schema_check(e: Seq<(Seq<char>, SField)>) -> Result<(), ErrorView> {
    if e.len() == 0 {
        Err(ErrorView::Schema("schema must have at least one field"@))
    } else {
        fields_check(e)
    }
}

/// The weight a text field ranks with: its own, or `1`.
pub open spec fn weight_or_one(w: Option<Seq<char>>) -> Seq<char> {
    match w {
        Some(w) => w,
        None => "1"@,
    }
}

/// The text fields, as (name, weight) pairs, in name order.
pub open spec fn text_fields_spec(e: Seq<(Seq<char>, SField)>) -> Seq<(Seq<char>, Seq<char>)>
    decreases e.len(),
{
    if e.len() == 0 {
        seq![]
    } else if e.last().1.field_type == FieldType::Text {
        text_fields_spec(e.drop_last()).push((e.last().0, weight_or_one(e.last().1.weight)))
    } else {
        text_fields_spec(e.drop_last())
    }
}

pub open spec fn pairs_view(v: Seq<(String, String)>) -> Seq<(Seq<char>, Seq<char>)> {
    v.map_values(|p: (String, String)| (p.0@, p.1@))
}

fn is_weight_positive(w: &str) -> (r: bool)
    ensures
        r == weight_positive(w@),
{
    if str_eq(w, "NaN") || str_eq(w, "inf") {
        return true;
    }
    let v = chars_of(w);
    let n = v.len();
    proof {
        reveal_strlit("NaN");
        reveal_strlit("inf");
    }
    if n == 0 || !is_ascii_digit(v[0]) || !is_ascii_digit(v[n - 1]) {
        return false;
    }
    let mut dot = false;
    let mut nonzero = false;
    let mut i: usize = 0;
    while i < n
        invariant
            i <= n == v.len(),
            v@ == w@,
            n > 0,
            is_digit_spec(v@[0]),
            is_digit_spec(v@[n - 1]),
            w@ != "NaN"@,
            w@ != "inf"@,
            forall|k: int| 0 <= k < i ==> is_digit_spec(#[trigger] v@[k]) || v@[k] == '.',
            forall|a: int, b: int| 0 <= a < b < i ==> !(#[trigger] v@[a] == '.' && #[trigger] v@[b] == '.'),
            dot == (exists|k: int| 0 <= k < i && #[trigger] v@[k] == '.'),
            nonzero == (exists|k: int| 0 <= k < i && '1' <= #[trigger] v@[k] <= '9'),
        decreases n - i,
    {
        let c = v[i];
        if c == '.' {
            if dot {
                proof {
                    let k = choose|k: int| 0 <= k < i && #[trigger] v@[k] == '.';
                    assert(v@[k] == '.' && v@[i as int] == '.');
                    assert(!plain_decimal(w@));
                }
                return false;
            }
            dot = true;
        } else if is_ascii_digit(c) {
            if c != '0' {
                nonzero = true;
            }
        } else {
            proof {
                assert(!(is_digit_spec(w@[i as int]) || w@[i as int] == '.'));
                assert(!plain_decimal(w@));
            }
            return false;
        }
        i += 1;
    }
    proof {
        assert(plain_decimal(w@));
        if !nonzero {
            assert forall|k: int| 0 <= k < w@.len() implies !('1' <= #[trigger] w@[k] <= '9') by {
                assert(v@[k] == w@[k]);
            }
        }
    }
    nonzero
}

fn check_field(name: &String, spec: &FieldSpec) -> (r: Result<(), MinistoreError>)
    ensures
        match (r, field_check(name@, spec@)) {
            (Ok(()), Ok(())) => true,
            (Err(e), Err(x)) => e@ == x,
            _ => false,
        },
{
    if !field_name_matches(name.as_str()) {
        return Err(MinistoreError::Schema(concat3("invalid field name '", name.as_str(), "': must match [A-Za-z_][A-Za-z0-9_]*")));
    }
    if str_eq(name.as_str(), "path") || str_eq(name.as_str(), "created") || str_eq(name.as_str(), "updated") {
        return Err(MinistoreError::Schema(concat3("field name '", name.as_str(), "' is reserved")));
    }
    if let Some(w) = &spec.weight {
        if spec.field_type != FieldType::Text {
            return Err(MinistoreError::Schema(concat3("weight can only be specified for text fields, not '", name.as_str(), "'")));
        }
        if !is_weight_positive(w.as_str()) {
            return Err(MinistoreError::Schema(concat3("weight for field '", name.as_str(), "' must be positive")));
        }
    }
    Ok(())
}

impl Schema {
    /// Validate the schema: at least one field; names match
    /// `[A-Za-z_][A-Za-z0-9_]*` and are not `path`, `created` or `updated`;
    /// weights only on text fields, and positive.
    pub fn validate(&self) -> (r: Result<(), MinistoreError>)
        ensures
            match (r, schema_check(self.entries())) {
                (Ok(()), Ok(())) => true,
                (Err(e), Err(x)) => e@ == x,
                _ => false,
            },
    {
        if self.fields.len() == 0 {
            return Err(MinistoreError::Schema(String::from_str("schema must have at least one field")));
        }
        let ghost e = self.entries();
        let mut i: usize = 0;
        assert(e.skip(0) == e);
        while i < self.fields.len()
            invariant
                i <= self.fields.len(),
                e == self.entries(),
                e.len() == self.fields.len(),
                fields_check(e) == fields_check(e.skip(i as int)),
            decreases self.fields.len() - i,
        {
            assert(e.skip(i as int)[0] == e[i as int]);
            assert(e.skip(i as int).drop_first() == e.skip(i + 1));
            check_field(&self.fields[i].0, &self.fields[i].1)?;
            i += 1;
        }
        assert(e.skip(i as int).len() == 0);
        Ok(())
    }

    /// The text fields as (name, weight) pairs in name order, which is the order
    /// of the full-text columns; a field without a weight ranks with `1`.
    pub fn text_fields_in_order(&self) -> (r: Vec<(String, String)>)
        ensures
            pairs_view(r@) == text_fields_spec(self.entries()),
    {
        let ghost e = self.entries();
        let mut out: Vec<(String, String)> = Vec::new();
        let mut i: usize = 0;
        while i < self.fields.len()
            invariant
                i <= self.fields.len(),
                e == self.entries(),
                e.len() == self.fields.len(),
                pairs_view(out@) == text_fields_spec(e.take(i as int)),
            decreases self.fields.len() - i,
        {
            assert(e.take(i + 1).drop_last() == e.take(i as int));
            assert(e.take(i + 1).last() == e[i as int]);
            let spec = &self.fields[i].1;
            if spec.field_type == FieldType::Text {
                let name = self.fields[i].0.clone();
                let w = match &spec.weight {
                    Some(w) => w.clone(),
                    None => String::from_str("1"),
                };
                let ghost item = (name@, w@);
                let ghost before = out@;
                out.push((name, w));
                assert(pairs_view(out@) =~= pairs_view(before).push(item));
            }
            i += 1;
        }
        assert(e.take(i as int) == e);
        out
    }

    /// Get a field spec by name.
    pub fn get(&self, field: &str) -> (r: Option<&FieldSpec>)
        ensures
            match r {
                Some(f) => lookup(self.entries(), field@) == Some(f@),
                None => lookup(self.entries(), field@) is None,
            },
    {
        let ghost e = self.entries();
        let mut i: usize = 0;
        assert(e.skip(0) == e);
        while i < self.fields.len()
            invariant
                i <= self.fields.len(),
                e == self.entries(),
                e.len() == self.fields.len(),
                lookup(e, field@) == lookup(e.skip(i as int), field@),
            decreases self.fields.len() - i,
        {
            assert(e.skip(i as int)[0] == e[i as int]);
            assert(e.skip(i as int).drop_first() == e.skip(i + 1));
            if str_eq(self.fields[i].0.as_str(), field) {
                return Some(&self.fields[i].1);
            }
            i += 1;
        }
        None
    }

    /// Check if a field exists in the schema.
    pub fn has_field(&self, field: &str) -> (r: bool)
        ensures
            r == self.field_map().dom().contains(field@),
    {
        self.get(field).is_some()
    }
}

impl FieldSpec {
    /// A text field spec, with an optional ranking weight.
    pub fn text(weight: Option<String>) -> (f: Self)
        ensures
            f.field_type == FieldType::Text,
            !f.multi,
            f.weight == weight,
    {
        FieldSpec { field_type: FieldType::Text, multi: false, weight }
    }

    /// A keyword field spec.
    pub fn keyword(multi: bool) -> (f: Self)
        ensures
            f.field_type == FieldType::Keyword,
            f.multi == multi,
            f.weight is None,
    {
        FieldSpec { field_type: FieldType::Keyword, multi, weight: None }
    }

    /// A number field spec.
    pub fn number(multi: bool) -> (f: Self)
        ensures
            f.field_type == FieldType::Number,
            f.multi == multi,
            f.weight is None,
    {
        FieldSpec { field_type: FieldType::Number, multi, weight: None }
    }

    /// A date field spec.
    pub fn date(multi: bool) -> (f: Self)
        ensures
            f.field_type == FieldType::Date,
            f.multi == multi,
            f.weight is None,
    {
        FieldSpec { field_type: FieldType::Date, multi, weight: None }
    }

    /// A bool field spec.
    pub fn bool() -> (f: Self)
        ensures
            f.field_type == FieldType::Bool,
            !f.multi,
            f.weight is None,
    {
        FieldSpec { field_type: FieldType::Bool, multi: false, weight: None }
    }
}

/// The name of a field type as `Debug` writes it.
pub open spec fn field_type_name_spec(t: FieldType) -> Seq<char> {
    match t {
        FieldType::Keyword => "Keyword"@,
        FieldType::Text => "Text"@,
        FieldType::Number => "Number"@,
        FieldType::Date => "Date"@,
        FieldType::Bool => "Bool"@,
    }
}

/// The name of a field type, as in messages and field overviews.
pub fn field_type_name(t: FieldType) -> (r: String)
    ensures
        r@ == field_type_name_spec(t),
{
    match t {
        FieldType::Keyword => String::from_str("Keyword"),
        FieldType::Text => String::from_str("Text"),
        FieldType::Number => String::from_str("Number"),
        FieldType::Date => String::from_str("Date"),
        FieldType::Bool => String::from_str("Bool"),
    }
}

impl Default for Schema {
    fn default() -> (s: Self)
        ensures
            s.entries() == Seq::<(Seq<char>, SField)>::empty(),
    {
        Schema::new()
    }
}

} // verus!
