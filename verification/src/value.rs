use vstd::prelude::*;

verus! {

/// The coarse kind of a document value, as reported to language bindings
/// that convert a host language's native values into [`Value`].
#[derive(Clone, Copy, PartialEq, Eq, Structural, Debug)]
pub enum JsonFieldType {
    String,
    Int,
    Float,
    Object,
    Array,
    Boolean,
    Null,
}

/// Canonical tagged document value: the unit every component of the engine
/// operates on.  A `Double` holds the IEEE-754 bit pattern of the 64-bit
/// floating-point value so that the verified core never computes on floats;
/// the codec stores and restores the pattern exactly.
#[derive(Debug, PartialEq)]
pub enum Value {
    Null,
    Bool(bool),
    Int32(i32),
    Int64(i64),
    Double(u64),
    Text(String),
    Binary(Vec<u8>),
    Array(Vec<Value>),
    Object(Document),
    DateTime(i64),
}

/// A document: an ordered list of fields, each a name paired with a value.
/// Field order is preserved by storage and by every mutation, because the
/// translator's parameter ordering and the patch engine's semantics are
/// both stated over it.
#[derive(Debug, PartialEq)]
pub struct Document {
    pub fields: Vec<(String, Value)>,
}

/// The mathematical model of a document: its field names and modelled values,
/// in order.
pub type SpecDoc = Seq<(Seq<char>, SpecValue)>;

/// The mathematical model of a [`Value`]: the same tree with every `String`
/// and `Vec` replaced by its sequence abstraction, so that equality of models
/// is equality of contents.
pub enum SpecValue {
    Null,
    Bool(bool),
    Int32(i32),
    Int64(i64),
    Double(u64),
    Text(Seq<char>),
    Binary(Seq<u8>),
    Array(Seq<SpecValue>),
    Object(SpecDoc),
    DateTime(i64),
}

/// The model of a value.
pub open spec fn value_model(v: Value) -> SpecValue
    decreases v,
    via value_model_dec
{
    match v {
        Value::Null => SpecValue::Null,
        Value::Bool(b) => SpecValue::Bool(b),
        Value::Int32(i) => SpecValue::Int32(i),
        Value::Int64(i) => SpecValue::Int64(i),
        Value::Double(bits) => SpecValue::Double(bits),
        Value::Text(s) => SpecValue::Text(s@),
        Value::Binary(b) => SpecValue::Binary(b@),
        Value::Array(items) => SpecValue::Array(seq_model(items@)),
        Value::Object(d) => SpecValue::Object(fields_model(d.fields@)),
        Value::DateTime(t) => SpecValue::DateTime(t),
    }
}

#[via_fn]
proof fn value_model_dec(v: Value) {
    match v {
        Value::Array(items) => {
            assert(decreases_to!(v => items));
            assert(decreases_to!(items => items@));
        },
        Value::Object(d) => {
            assert(decreases_to!(v => d));
            assert(decreases_to!(d => d.fields));
            assert(decreases_to!(d.fields => d.fields@));
        },
        _ => {},
    }
}

/// The model of a list of values.
pub open spec fn seq_model(items: Seq<Value>) -> Seq<SpecValue>
    decreases items,
    via seq_model_dec
{
    if items.len() == 0 {
        Seq::<SpecValue>::empty()
    } else {
        seq![value_model(items[0])] + seq_model(items.drop_first())
    }
}

#[via_fn]
proof fn seq_model_dec(items: Seq<Value>) {
    if items.len() > 0 {
        assert(decreases_to!(items => items[0]));
        assert(items.drop_first() == items.subrange(1, items.len() as int));
        assert(decreases_to!(items => items.subrange(1, items.len() as int)));
    }
}

/// The model of a field list.
pub open spec fn fields_model(fields: Seq<(String, Value)>) -> SpecDoc
    decreases fields,
    via fields_model_dec
{
    if fields.len() == 0 {
        Seq::<(Seq<char>, SpecValue)>::empty()
    } else {
        seq![(fields[0].0@, value_model(fields[0].1))] + fields_model(fields.drop_first())
    }
}

#[via_fn]
proof fn fields_model_dec(fields: Seq<(String, Value)>) {
    if fields.len() > 0 {
        assert(decreases_to!(fields => fields[0]));
        assert(decreases_to!(fields[0] => fields[0].1));
        assert(fields.drop_first() == fields.subrange(1, fields.len() as int));
        assert(decreases_to!(fields => fields.subrange(1, fields.len() as int)));
    }
}

/// The model of a list of values is its values' models, in order.
pub broadcast proof fn lemma_seq_model(items: Seq<Value>)
    ensures
        (#[trigger] seq_model(items)).len() == items.len(),
        forall|i: int| 0 <= i < items.len() ==> seq_model(items)[i] == value_model(items[i]),
    decreases items.len(),
{
    if items.len() > 0 {
        lemma_seq_model(items.drop_first());
    }
}

/// The model of a field list is its fields' names and models, in order.
pub broadcast proof fn lemma_fields_model(fields: Seq<(String, Value)>)
    ensures
        (#[trigger] fields_model(fields)).len() == fields.len(),
        forall|i: int|
            0 <= i < fields.len() ==> fields_model(fields)[i] == (
            fields[i].0@,
            value_model(fields[i].1),
            ),
    decreases fields.len(),
{
    if fields.len() > 0 {
        lemma_fields_model(fields.drop_first());
    }
}

pub broadcast group group_value_model {
    lemma_seq_model,
    lemma_fields_model,
}

impl View for Value {
    type V = SpecValue;

    open spec fn view(&self) -> SpecValue {
        value_model(*self)
    }
}

impl View for Document {
    type V = SpecDoc;

    open spec fn view(&self) -> SpecDoc {
        fields_model(self.fields@)
    }
}

/// Character-for-character string comparison, decided through the UTF-8
/// encodings of the two strings.
pub fn str_eq(a: &str, b: &str) -> (r: bool)
    ensures
        r == (a@ == b@),
{
    broadcast use vstd::utf8::encode_utf8_decode_utf8;

    let ab = a.as_bytes();
    let bb = b.as_bytes();
    if ab.len() != bb.len() {
        return false;
    }
    let n = ab.len();
    for i in 0..n
        invariant
            n == ab@.len() == bb@.len(),
            ab@ == vstd::utf8::encode_utf8(a@),
            bb@ == vstd::utf8::encode_utf8(b@),
            forall|j: int| 0 <= j < i ==> ab@[j] == bb@[j],
    {
        if ab[i] != bb[i] {
            return false;
        }
    }
    proof {
        assert(ab@ =~= bb@);
        assert(vstd::utf8::decode_utf8(vstd::utf8::encode_utf8(a@)) == a@);
        assert(vstd::utf8::decode_utf8(vstd::utf8::encode_utf8(b@)) == b@);
    }
    true
}

/// The value of the first field named `k`, if any.
pub open spec fn spec_get(fields: SpecDoc, k: Seq<char>) -> Option<SpecValue>
    decreases fields.len(),
{
    if fields.len() == 0 {
        None::<SpecValue>
    } else if fields[0].0 == k {
        Some(fields[0].1)
    } else {
        spec_get(fields.drop_first(), k)
    }
}

/// `fields` with the first field named `k` replaced by `(k, v)`, or with
/// `(k, v)` appended if no field is named `k`.
pub open spec fn spec_set(fields: SpecDoc, k: Seq<char>, v: SpecValue) -> SpecDoc
    decreases fields.len(),
{
    if fields.len() == 0 {
        seq![(k, v)]
    } else if fields[0].0 == k {
        seq![(fields[0].0, v)] + fields.drop_first()
    } else {
        seq![fields[0]] + spec_set(fields.drop_first(), k, v)
    }
}

/// `fields` with the first field named `k` removed; unchanged if absent.
pub open spec fn spec_remove(fields: SpecDoc, k: Seq<char>) -> SpecDoc
    decreases fields.len(),
{
    if fields.len() == 0 {
        fields
    } else if fields[0].0 == k {
        fields.drop_first()
    } else {
        seq![fields[0]] + spec_remove(fields.drop_first(), k)
    }
}

proof fn lemma_get_skip(fields: SpecDoc, k: Seq<char>, i: int)
    requires
        0 <= i <= fields.len(),
        forall|j: int| 0 <= j < i ==> fields[j].0 != k,
    ensures
        spec_get(fields, k) == spec_get(fields.skip(i), k),
    decreases i,
{
    if i == 0 {
        assert(fields.skip(0) =~= fields);
    } else {
        assert(fields.drop_first().skip(i - 1) =~= fields.skip(i));
        lemma_get_skip(fields.drop_first(), k, i - 1);
    }
}

/// If the scan has passed `i` fields without a match and field `i` matches,
/// that field decides the lookup.
pub proof fn lemma_get_at(fields: SpecDoc, k: Seq<char>, i: int)
    requires
        0 <= i < fields.len(),
        forall|j: int| 0 <= j < i ==> fields[j].0 != k,
        fields[i].0 == k,
    ensures
        spec_get(fields, k) == Some(fields[i].1),
{
    lemma_get_skip(fields, k, i);
    assert(fields.skip(i)[0] == fields[i]);
}

/// If no field matches, the lookup is `None`.
pub proof fn lemma_get_none(fields: SpecDoc, k: Seq<char>)
    requires
        forall|j: int| 0 <= j < fields.len() ==> fields[j].0 != k,
    ensures
        spec_get(fields, k) == None::<SpecValue>,
{
    lemma_get_skip(fields, k, fields.len() as int);
}

impl Document {
    pub fn new() -> (d: Document)
        ensures
            d@ =~= Seq::<(Seq<char>, SpecValue)>::empty(),
    {
        broadcast use group_value_model;

        Document { fields: Vec::new() }
    }

    pub fn len(&self) -> (n: usize)
        ensures
            n == self@.len(),
    {
        broadcast use group_value_model;

        self.fields.len()
    }

    pub fn field_at(&self, i: usize) -> (f: &(String, Value))
        requires
            i < self@.len(),
        ensures
            *f == self.fields@[i as int],
            f.0@ == self@[i as int].0,
            f.1@ == self@[i as int].1,
    {
    broadcast use group_value_model;

        &self.fields[i]
    }

    #[verifier::loop_isolation(false)]
    pub fn get<'a>(&'a self, k: &str) -> (r: Option<&'a Value>)
        ensures
            match r {
                Some(v) => spec_get(self@, k@) == Some(v@),
                None => spec_get(self@, k@) is None,
            },
    {
    broadcast use group_value_model;

        let n = self.fields.len();
        for i in 0..n
            invariant
                n == self.fields@.len(),
                forall|j: int| 0 <= j < i ==> self@[j].0 != k@,
        {
            if str_eq(self.fields[i].0.as_str(), k) {
                proof {
                    lemma_get_at(self@, k@, i as int);
                }
                return Some(&self.fields[i].1);
            }
        }
        proof {
            lemma_get_none(self@, k@);
        }
        None
    }

    pub fn contains_key(&self, k: &str) -> (r: bool)
        ensures
            r == spec_get(self@, k@) is Some,
    {
    broadcast use group_value_model;

        self.get(k).is_some()
    }

    /// Replace the first field named `k` in place, or append `(k, v)`.
    #[verifier::loop_isolation(false)]
    pub fn set(&mut self, k: String, v: Value)
        ensures
            final(self)@ == spec_set(old(self)@, k@, v@),
    {
    broadcast use group_value_model;

        let n = self.fields.len();
        for i in 0..n
            invariant
                n == self.fields@.len(),
                self.fields@ == old(self).fields@,
                forall|j: int| 0 <= j < i ==> old(self)@[j].0 != k@,
        {
            if str_eq(self.fields[i].0.as_str(), k.as_str()) {
                proof {
                    lemma_set_at(old(self)@, k@, v@, i as int);
                }
                let name = self.fields[i].0.clone();
                self.fields.set(i, (name, v));
                proof {
                    assert(self@ =~= old(self)@.update(i as int, (k@, v@)));
                }
                return ;
            }
        }
        proof {
            lemma_set_none(old(self)@, k@, v@);
        }
        self.fields.push((k, v));
        proof {
            assert(self@ =~= old(self)@.push((k@, v@)));
        }
    }

    /// Remove the first field named `k` and return its value; `None` and no
    /// change if absent.
    #[verifier::loop_isolation(false)]
    pub fn take(&mut self, k: &str) -> (r: Option<Value>)
        ensures
            match r {
                Some(v) => {
                    &&& spec_get(old(self)@, k@) == Some(v@)
                    &&& final(self)@ == spec_remove(old(self)@, k@)
                },
                None => {
                    &&& spec_get(old(self)@, k@) is None
                    &&& final(self)@ == old(self)@
                },
            },
    {
    broadcast use group_value_model;

        let n = self.fields.len();
        for i in 0..n
            invariant
                n == self.fields@.len(),
                self.fields@ == old(self).fields@,
                forall|j: int| 0 <= j < i ==> old(self)@[j].0 != k@,
        {
            if str_eq(self.fields[i].0.as_str(), k) {
                proof {
                    lemma_get_at(old(self)@, k@, i as int);
                    lemma_remove_at(old(self)@, k@, i as int);
                }
                let pair = self.fields.remove(i);
                proof {
                    assert(self@ =~= old(self)@.remove(i as int));
                }
                return Some(pair.1);
            }
        }
        proof {
            lemma_get_none(old(self)@, k@);
        }
        None
    }

    /// Remove the first field named `k`; do nothing if absent.
    #[verifier::loop_isolation(false)]
    pub fn remove(&mut self, k: &str)
        ensures
            final(self)@ == spec_remove(old(self)@, k@),
    {
    broadcast use group_value_model;

        let n = self.fields.len();
        for i in 0..n
            invariant
                n == self.fields@.len(),
                self.fields@ == old(self).fields@,
                forall|j: int| 0 <= j < i ==> old(self)@[j].0 != k@,
        {
            if str_eq(self.fields[i].0.as_str(), k) {
                proof {
                    lemma_remove_at(old(self)@, k@, i as int);
                }
                self.fields.remove(i);
                proof {
                    assert(self@ =~= old(self)@.remove(i as int));
                }
                return ;
            }
        }
        proof {
            lemma_remove_none(old(self)@, k@);
        }
    }
}

proof fn lemma_set_at(fields: SpecDoc, k: Seq<char>, v: SpecValue, i: int)
    requires
        0 <= i < fields.len(),
        forall|j: int| 0 <= j < i ==> fields[j].0 != k,
        fields[i].0 == k,
    ensures
        spec_set(fields, k, v) =~= fields.update(i, (k, v)),
    decreases i,
{
    if i == 0 {
        assert(seq![(fields[0].0, v)] + fields.drop_first() =~= fields.update(0, (k, v)));
    } else {
        lemma_set_at(fields.drop_first(), k, v, i - 1);
        assert(seq![fields[0]] + fields.drop_first().update(i - 1, (k, v)) =~= fields.update(
            i,
            (k, v),
        ));
    }
}

proof fn lemma_set_none(fields: SpecDoc, k: Seq<char>, v: SpecValue)
    requires
        forall|j: int| 0 <= j < fields.len() ==> fields[j].0 != k,
    ensures
        spec_set(fields, k, v) =~= fields.push((k, v)),
    decreases fields.len(),
{
    if fields.len() > 0 {
        lemma_set_none(fields.drop_first(), k, v);
        assert(seq![fields[0]] + fields.drop_first().push((k, v)) =~= fields.push((k, v)));
    }
}

proof fn lemma_remove_at(fields: SpecDoc, k: Seq<char>, i: int)
    requires
        0 <= i < fields.len(),
        forall|j: int| 0 <= j < i ==> fields[j].0 != k,
        fields[i].0 == k,
    ensures
        spec_remove(fields, k) =~= fields.remove(i),
    decreases i,
{
    if i == 0 {
        assert(fields.drop_first() =~= fields.remove(0));
    } else {
        lemma_remove_at(fields.drop_first(), k, i - 1);
        assert(seq![fields[0]] + fields.drop_first().remove(i - 1) =~= fields.remove(i));
    }
}

proof fn lemma_remove_none(fields: SpecDoc, k: Seq<char>)
    requires
        forall|j: int| 0 <= j < fields.len() ==> fields[j].0 != k,
    ensures
        spec_remove(fields, k) =~= fields,
    decreases fields.len(),
{
    if fields.len() > 0 {
        lemma_remove_none(fields.drop_first(), k);
        assert(seq![fields[0]] + spec_remove(fields.drop_first(), k) =~= fields);
    }
}

/// A structural deep copy whose model is known, unlike that of the derived
/// `Clone`, to equal its argument's.
#[verifier::loop_isolation(false)]
pub fn clone_value(v: &Value) -> (r: Value)
    ensures
        r@ == v@,
    decreases v,
{
    broadcast use group_value_model;

    match v {
        Value::Null => Value::Null,
        Value::Bool(b) => Value::Bool(*b),
        Value::Int32(i) => Value::Int32(*i),
        Value::Int64(i) => Value::Int64(*i),
        Value::Double(bits) => Value::Double(*bits),
        Value::Text(s) => Value::Text(s.clone()),
        Value::Binary(b) => {
            let mut out: Vec<u8> = Vec::new();
            let n = b.len();
            for i in 0..n
                invariant
                    n == b@.len(),
                    out@ =~= b@.subrange(0, i as int),
            {
                out.push(b[i]);
            }
            assert(out@ =~= b@);
            Value::Binary(out)
        },
        Value::Array(items) => Value::Array(clone_values(items)),
        Value::Object(d) => Value::Object(clone_document(d)),
        Value::DateTime(t) => Value::DateTime(*t),
    }
}

/// Deep copy of a list of values; the models agree element for element.
#[verifier::loop_isolation(false)]
pub fn clone_values(items: &Vec<Value>) -> (r: Vec<Value>)
    ensures
        seq_model(r@) == seq_model(items@),
    decreases items,
{
    broadcast use group_value_model;

    let mut out: Vec<Value> = Vec::new();
    let n = items.len();
    for i in 0..n
        invariant
            n == items@.len(),
            out@.len() == i,
            forall|j: int| 0 <= j < i ==> value_model(#[trigger] out@[j]) == value_model(items@[j]),
        decreases n - i,
    {
        let c = clone_value(&items[i]);
        out.push(c);
    }
    proof {
        assert(seq_model(out@) =~= seq_model(items@));
    }
    out
}

/// Deep copy of a document; the result's model equals the argument's.
#[verifier::loop_isolation(false)]
pub fn clone_document(d: &Document) -> (r: Document)
    ensures
        r@ == d@,
    decreases d,
{
    broadcast use group_value_model;

    let mut out: Vec<(String, Value)> = Vec::new();
    let n = d.fields.len();
    for i in 0..n
        invariant
            n == d.fields@.len(),
            out@.len() == i,
            forall|j: int|
                0 <= j < i ==> (#[trigger] out@[j]).0@ == d.fields@[j].0@ && value_model(
                    out@[j].1,
                ) == value_model(d.fields@[j].1),
        decreases n - i,
    {
        let name = d.fields[i].0.clone();
        let val = clone_value(&d.fields[i].1);
        out.push((name, val));
    }
    let r = Document { fields: out };
    proof {
        assert(r@ =~= d@);
    }
    r
}

/// The kind a binding layer reports for a value.
pub fn json_field_type(v: &Value) -> JsonFieldType {
    match v {
        Value::Null => JsonFieldType::Null,
        Value::Bool(_) => JsonFieldType::Boolean,
        Value::Int32(_) => JsonFieldType::Int,
        Value::Int64(_) => JsonFieldType::Int,
        Value::Double(_) => JsonFieldType::Float,
        Value::Text(_) => JsonFieldType::String,
        Value::Binary(_) => JsonFieldType::Array,
        Value::Array(_) => JsonFieldType::Array,
        Value::Object(_) => JsonFieldType::Object,
        Value::DateTime(_) => JsonFieldType::Int,
    }
}

} // verus!
