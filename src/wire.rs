//! The wire data model: JSON values, their mathematical model, and object entry lookup.
use vstd::prelude::*;

verus! {

/// A value as it travels on the wire: the JSON data model.
#[derive(Debug, PartialEq, Eq)]
pub enum Value {
    Null,
    Bool(bool),
    Int(i128),
    /// A number with a fractional part, kept as the bit pattern of its IEEE-754 binary64 form.
    Real(u64),
    Str(String),
    Array(Vec<Value>),
    /// Keys with their values, in the order in which they were written.
    Object(Vec<(String, Value)>),
}

/// The mathematical model of a wire value.
pub enum Json {
    Null,
    Bool(bool),
    Int(int),
    Real(u64),
    Str(Seq<char>),
    Array(Seq<Json>),
    Object(Seq<(Seq<char>, Json)>),
}

pub open spec fn model(v: Value) -> Json
    decreases v,
{
    match v {
        Value::Null => Json::Null,
        Value::Bool(b) => Json::Bool(b),
        Value::Int(n) => Json::Int(n as int),
        Value::Real(b) => Json::Real(b),
        Value::Str(s) => Json::Str(s@),
        Value::Array(a) => Json::Array(
            Seq::new(a.len() as nat, |i: int| if 0 <= i < a.len() { model(a[i]) } else { Json::Null }),
        ),
        Value::Object(es) => Json::Object(
            Seq::new(
                es.len() as nat,
                |i: int|
                    if 0 <= i < es.len() {
                        (es[i].0@, model(es[i].1))
                    } else {
                        (Seq::empty(), Json::Null)
                    },
            ),
        ),
    }
}

impl View for Value {
    type V = Json;

    open spec fn view(&self) -> Json {
        model(*self)
    }
}

/// The model of the entries of an object.
pub open spec fn entries(es: Seq<(String, Value)>) -> Seq<(Seq<char>, Json)> {
    Seq::new(es.len(), |i: int| (es[i].0@, es[i].1@))
}

/// The model of the items of an array.
pub open spec fn items(a: Seq<Value>) -> Seq<Json> {
    Seq::new(a.len(), |i: int| a[i]@)
}

pub broadcast proof fn lemma_object_model(es: Vec<(String, Value)>)
    ensures
        #[trigger] Value::Object(es)@ == Json::Object(entries(es@)),
{
    let m = Value::Object(es)@;
    assert(m->Object_0 =~= entries(es@));
}

pub broadcast proof fn lemma_array_model(a: Vec<Value>)
    ensures
        #[trigger] Value::Array(a)@ == Json::Array(items(a@)),
{
    let m = Value::Array(a)@;
    assert(m->Array_0 =~= items(a@));
}

/// The JSON kind of a wire value.
#[derive(Clone, Copy, Debug, PartialEq, Eq, Structural)]
pub enum Kind {
    Null,
    Bool,
    Integer,
    Real,
    String,
    Array,
    Object,
}

pub open spec fn kind_of(j: Json) -> Kind {
    match j {
        Json::Null => Kind::Null,
        Json::Bool(_) => Kind::Bool,
        Json::Int(_) => Kind::Integer,
        Json::Real(_) => Kind::Real,
        Json::Str(_) => Kind::String,
        Json::Array(_) => Kind::Array,
        Json::Object(_) => Kind::Object,
    }
}

pub fn kind(v: &Value) -> (r: Kind)
    ensures
        r == kind_of(v@),
{
    match v {
        Value::Null => Kind::Null,
        Value::Bool(_) => Kind::Bool,
        Value::Int(_) => Kind::Integer,
        Value::Real(_) => Kind::Real,
        Value::Str(_) => Kind::String,
        Value::Array(_) => Kind::Array,
        Value::Object(_) => Kind::Object,
    }
}

/// The value of the last entry with key `k`, if any: a later entry overrides an earlier one.
pub open spec fn lookup(es: Seq<(Seq<char>, Json)>, k: Seq<char>) -> Option<Json>
    decreases es.len(),
{
    if es.len() == 0 {
        None
    } else if es.last().0 == k {
        Some(es.last().1)
    } else {
        lookup(es.drop_last(), k)
    }
}

/// `es` with the entry `(k, v)` appended when `v` is present.
#[verifier::opaque]
pub open spec fn put(es: Seq<(Seq<char>, Json)>, k: Seq<char>, v: Option<Json>) -> Seq<(Seq<char>, Json)> {
    match v {
        Some(j) => es.push((k, j)),
        None => es,
    }
}

pub broadcast proof fn lemma_lookup_push(es: Seq<(Seq<char>, Json)>, e: (Seq<char>, Json), k: Seq<char>)
    ensures
        #[trigger] lookup(es.push(e), k) == if e.0 == k {
            Some(e.1)
        } else {
            lookup(es, k)
        },
{
    assert(es.push(e).drop_last() =~= es);
}

pub broadcast proof fn lemma_lookup_put(
    es: Seq<(Seq<char>, Json)>,
    k: Seq<char>,
    v: Option<Json>,
    k2: Seq<char>,
)
    ensures
        #[trigger] lookup(put(es, k, v), k2) == if k == k2 && v is Some {
            v
        } else {
            lookup(es, k2)
        },
{
    reveal(put);
    if let Some(j) = v {
        lemma_lookup_push(es, (k, j), k2);
    }
}

pub proof fn lemma_lookup_none(es: Seq<(Seq<char>, Json)>, k: Seq<char>)
    ensures
        lookup(es, k) is None <==> (forall|j: int| 0 <= j < es.len() ==> #[trigger] es[j].0 != k),
    decreases es.len(),
{
    if es.len() > 0 {
        lemma_lookup_none(es.drop_last(), k);
        assert forall|j: int| 0 <= j < es.len() - 1 implies es.drop_last()[j] == #[trigger] es[j] by {}
    }
}

/// Finds the value of the last entry with key `key` among the first `end` entries.
pub fn find<'a>(es: &'a Vec<(String, Value)>, key: &str, end: usize) -> (r: Option<&'a Value>)
    requires
        end <= es.len(),
    ensures
        match r {
            Some(v) => lookup(entries(es@).take(end as int), key@) == Some(v@),
            None => lookup(entries(es@).take(end as int), key@) is None,
        },
{
    let k = String::from_str(key);
    let mut i: usize = end;
    while i > 0
        invariant
            i <= end <= es.len(),
            k@ == key@,
            lookup(entries(es@).take(end as int), key@) == lookup(entries(es@).take(i as int), key@),
        decreases i,
    {
        i = i - 1;
        assert(entries(es@).take(i as int + 1).drop_last() =~= entries(es@).take(i as int));
        if es[i].0 == k {
            return Some(&es[i].1);
        }
    }
    None
}


impl Clone for Value {
    fn clone(&self) -> (r: Value)
        ensures
            r@ == self@,
    {
        copy_value(self)
    }
}

/// A copy of a wire value.
pub fn copy_value(v: &Value) -> (r: Value)
    ensures
        r@ == v@,
    decreases v,
{
    match v {
        Value::Null => Value::Null,
        Value::Bool(b) => Value::Bool(*b),
        Value::Int(n) => Value::Int(*n),
        Value::Real(b) => Value::Real(*b),
        Value::Str(s) => Value::Str(s.clone()),
        Value::Array(a) => {
            let mut out: Vec<Value> = Vec::new();
            let mut i: usize = 0;
            while i < a.len()
                invariant
                    i <= a.len(),
                    *v == Value::Array(*a),
                    items(out@) =~= items(a@).take(i as int),
                decreases a.len() - i,
            {
                let ghost prev = out@;
                proof {
                    vstd::std_specs::vec::axiom_vec_index_decreases(*a, i as int);
                    assert(decreases_to!(*v => v->Array_0));
                    assert(decreases_to!(*v => a[i as int]));
                }
                out.push(copy_value(&a[i]));
                assert(items(out@) =~= items(prev).push(a@[i as int]@));
                i = i + 1;
            }
            proof {
                lemma_array_model(*a);
                lemma_array_model(out);
            }
            assert(items(a@).take(a.len() as int) =~= items(a@));
            Value::Array(out)
        },
        Value::Object(es) => {
            let mut out: Vec<(String, Value)> = Vec::new();
            let mut i: usize = 0;
            while i < es.len()
                invariant
                    i <= es.len(),
                    *v == Value::Object(*es),
                    entries(out@) =~= entries(es@).take(i as int),
                decreases es.len() - i,
            {
                let ghost prev = out@;
                proof {
                    vstd::std_specs::vec::axiom_vec_index_decreases(*es, i as int);
                    assert(decreases_to!(*v => v->Object_0));
                    assert(decreases_to!(*v => es[i as int]));
                    assert(decreases_to!(*v => es[i as int].1));
                }
                out.push((es[i].0.clone(), copy_value(&es[i].1)));
                assert(entries(out@) =~= entries(prev).push((es@[i as int].0@, es@[i as int].1@)));
                i = i + 1;
            }
            proof {
                lemma_object_model(*es);
                lemma_object_model(out);
            }
            assert(entries(es@).take(es.len() as int) =~= entries(es@));
            Value::Object(out)
        },
    }
}

} // verus!
