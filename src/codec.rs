//! The codec core: the `Codec` trait, record-field helpers, and the scalar codecs.
use vstd::prelude::*;
use crate::error::{DecodeError, Failure, mismatch, strings, type_mismatch};
use crate::wire::{
    Json, Kind, Value, entries, items, lookup, put, find, lemma_lookup_push, lemma_object_model,
    lemma_array_model, lemma_lookup_none,
};

verus! {

broadcast use {lemma_lookup_push, lemma_object_model, lemma_array_model};

/// A type with a wire form.
///
/// `enc` is the wire image of a value. `dec(w, at)` is what decoding `w` gives: the wire image of
/// the decoded value, or the failure; `at` is the path of the value in the document (field names
/// joined by dots), which errors report.
pub trait Codec: Sized {
    /// The values that the type's own rules admit.
    spec fn wf(&self) -> bool;

    spec fn enc(&self) -> Json;

    spec fn dec(w: Json, at: Seq<char>) -> Result<Json, Failure>;

    /// Decoding the wire image of a value gives that value back, and no image is `null`.
    proof fn lemma_round_trip(&self, at: Seq<char>)
        requires
            self.wf(),
        ensures
            Self::dec(self.enc(), at) == Ok::<Json, Failure>(self.enc()),
            self.enc() != Json::Null,
    ;

    fn encode(&self) -> (r: Value)
        ensures
            r@ == self.enc(),
    ;

    fn decode(w: &Value, at: &str) -> (r: Result<Self, DecodeError>)
        ensures
            match r {
                Ok(x) => x.wf() && Self::dec(w@, at@) == Ok::<Json, Failure>(x.enc()),
                Err(e) => Self::dec(w@, at@) == Err::<Json, Failure>(e@),
            },
    ;
}

/// The result of a decode agrees with its model: the same failure, or a well-formed value with
/// the wire image that the model gives.
pub open spec fn decoded<T: Codec>(r: Result<T, DecodeError>, m: Result<Json, Failure>) -> bool {
    match r {
        Ok(x) => x.wf() && m == Ok::<Json, Failure>(x.enc()),
        Err(e) => m == Err::<Json, Failure>(e@),
    }
}

pub open spec fn opt_wf<T: Codec>(o: Option<T>) -> bool {
    match o {
        Some(x) => x.wf(),
        None => true,
    }
}

pub open spec fn opt_enc<T: Codec>(o: Option<T>) -> Option<Json> {
    match o {
        Some(x) => Some(x.enc()),
        None => None,
    }
}

/// The path of the field `k` of the value at path `at`: the field names from the root, joined
/// by dots.
pub open spec fn field_path(at: Seq<char>, k: Seq<char>) -> Seq<char> {
    if at.len() == 0 {
        k
    } else {
        at + seq!['.'] + k
    }
}

/// Decoding the required field `k` of the object at path `at`: an absent key fails.
pub open spec fn req_dec<T: Codec>(es: Seq<(Seq<char>, Json)>, at: Seq<char>, k: Seq<char>) -> Result<Json, Failure> {
    match lookup(es, k) {
        None => Err(Failure::MissingRequiredField { field: field_path(at, k) }),
        Some(j) => T::dec(j, field_path(at, k)),
    }
}

/// Decoding the optional field `k` of the object at path `at`: an absent key, or one whose value
/// is `null`, gives no value.
pub open spec fn opt_dec<T: Codec>(es: Seq<(Seq<char>, Json)>, at: Seq<char>, k: Seq<char>) -> Result<Option<Json>, Failure> {
    match lookup(es, k) {
        None => Ok(None),
        Some(Json::Null) => Ok(None),
        Some(j) => match T::dec(j, field_path(at, k)) {
            Ok(d) => Ok(Some(d)),
            Err(e) => Err(e),
        },
    }
}

pub open spec fn opt_decoded<T: Codec>(r: Result<Option<T>, DecodeError>, m: Result<Option<Json>, Failure>) -> bool {
    match r {
        Ok(o) => opt_wf(o) && m == Ok::<Option<Json>, Failure>(opt_enc(o)),
        Err(e) => m == Err::<Option<Json>, Failure>(e@),
    }
}

pub proof fn lemma_opt_round_trip<T: Codec>(o: Option<T>, k: Seq<char>)
    requires
        opt_wf(o),
    ensures
        o is Some ==> T::dec(o->Some_0.enc(), k) == Ok::<Json, Failure>(o->Some_0.enc()),
        o is Some ==> o->Some_0.enc() != Json::Null,
{
    if let Some(x) = o {
        x.lemma_round_trip(k);
    }
}

/// A required field whose entry holds the image of `x` decodes to that image.
pub proof fn lemma_req_field<T: Codec>(es: Seq<(Seq<char>, Json)>, at: Seq<char>, k: Seq<char>, x: T)
    requires
        x.wf(),
        lookup(es, k) == Some(x.enc()),
    ensures
        req_dec::<T>(es, at, k) == Ok::<Json, Failure>(x.enc()),
{
    x.lemma_round_trip(field_path(at, k));
}

/// An optional field whose entry is the image of `o`, or absent, decodes to that.
pub proof fn lemma_opt_field<T: Codec>(es: Seq<(Seq<char>, Json)>, at: Seq<char>, k: Seq<char>, o: Option<T>)
    requires
        opt_wf(o),
        lookup(es, k) == opt_enc(o),
    ensures
        opt_dec::<T>(es, at, k) == Ok::<Option<Json>, Failure>(opt_enc(o)),
{
    lemma_opt_round_trip(o, field_path(at, k));
}

/// The path of the field `key` of the value at path `at`.
pub fn join_path(at: &str, key: &str) -> (r: String)
    ensures
        r@ == field_path(at@, key@),
{
    if at.is_empty() {
        String::from_str(key)
    } else {
        proof {
            reveal_strlit(".");
        }
        let mut p = String::from_str(at);
        p.append(".");
        p.append(key);
        p
    }
}

/// Decodes the required field `key` of the object at path `at`.
pub fn req_field<T: Codec>(es: &Vec<(String, Value)>, at: &str, key: &str) -> (r: Result<T, DecodeError>)
    ensures
        decoded(r, req_dec::<T>(entries(es@), at@, key@)),
{
    assert(entries(es@).take(es.len() as int) =~= entries(es@));
    let path = join_path(at, key);
    match find(es, key, es.len()) {
        None => Err(DecodeError::MissingRequiredField { field: path }),
        Some(v) => T::decode(v, path.as_str()),
    }
}

/// Decodes the optional field `key` of the object at path `at`.
pub fn opt_field<T: Codec>(es: &Vec<(String, Value)>, at: &str, key: &str) -> (r: Result<Option<T>, DecodeError>)
    ensures
        opt_decoded(r, opt_dec::<T>(entries(es@), at@, key@)),
{
    assert(entries(es@).take(es.len() as int) =~= entries(es@));
    match find(es, key, es.len()) {
        None => Ok(None),
        Some(Value::Null) => Ok(None),
        Some(v) => match T::decode(v, join_path(at, key).as_str()) {
            Ok(x) => Ok(Some(x)),
            Err(e) => Err(e),
        },
    }
}

/// Appends the entry `(key, v)`.
pub fn put_req(es: &mut Vec<(String, Value)>, key: &str, v: Value)
    ensures
        entries(final(es)@) == entries(old(es)@).push((key@, v@)),
{
    es.push((String::from_str(key), v));
    assert(entries(final(es)@) =~= entries(old(es)@).push((key@, v@)));
}

/// Appends the entry for an optional field, when it is present.
pub fn put_opt<T: Codec>(es: &mut Vec<(String, Value)>, key: &str, o: &Option<T>)
    ensures
        entries(final(es)@) == put(entries(old(es)@), key@, opt_enc(*o)),
{
    reveal(put);
    match o {
        Some(x) => put_req(es, key, x.encode()),
        None => {},
    }
}

pub fn empty_entries() -> (r: Vec<(String, Value)>)
    ensures
        entries(r@) == Seq::<(Seq<char>, Json)>::empty(),
{
    let r: Vec<(String, Value)> = Vec::new();
    assert(entries(r@) =~= Seq::<(Seq<char>, Json)>::empty());
    r
}

/// Whether a wire value is an object with an entry for `k`.
pub open spec fn has_key(j: Json, k: Seq<char>) -> bool {
    match j {
        Json::Object(es) => lookup(es, k) is Some,
        _ => false,
    }
}

/// Whether the object has an entry for `key`.
pub fn has_field(es: &Vec<(String, Value)>, key: &str) -> (r: bool)
    ensures
        r == (lookup(entries(es@), key@) is Some),
{
    assert(entries(es@).take(es.len() as int) =~= entries(es@));
    find(es, key, es.len()).is_some()
}

/// Whether `s` is the tag `tag`, exactly and case-sensitively.
pub fn is_tag(s: &String, tag: &str) -> (r: bool)
    ensures
        r == (s@ == tag@),
{
    *s == String::from_str(tag)
}

/// The discriminating keys of a union found so far, after looking for `k`.
pub open spec fn tag_step(t: Seq<Seq<char>>, es: Seq<(Seq<char>, Json)>, k: Seq<char>) -> Seq<Seq<char>> {
    if lookup(es, k) is Some {
        t.push(k)
    } else {
        t
    }
}

/// Records `key` among the discriminating keys found, when the object has it.
pub fn add_tag(tags: &mut Vec<String>, es: &Vec<(String, Value)>, key: &str)
    ensures
        strings(final(tags)@) == tag_step(strings(old(tags)@), entries(es@), key@),
{
    if has_field(es, key) {
        tags.push(String::from_str(key));
        assert(strings(final(tags)@) =~= strings(old(tags)@).push(key@));
    }
}

impl Codec for String {
    open spec fn wf(&self) -> bool {
        true
    }

    open spec fn enc(&self) -> Json {
        Json::Str(self@)
    }

    open spec fn dec(w: Json, at: Seq<char>) -> Result<Json, Failure> {
        match w {
            Json::Str(_) => Ok(w),
            _ => Err(mismatch(at, Kind::String, w)),
        }
    }

    proof fn lemma_round_trip(&self, at: Seq<char>) {
    }

    fn encode(&self) -> (r: Value) {
        Value::Str(self.clone())
    }

    fn decode(w: &Value, at: &str) -> (r: Result<String, DecodeError>) {
        match w {
            Value::Str(s) => Ok(s.clone()),
            _ => Err(type_mismatch(at, Kind::String, w)),
        }
    }
}

impl Codec for bool {
    open spec fn wf(&self) -> bool {
        true
    }

    open spec fn enc(&self) -> Json {
        Json::Bool(*self)
    }

    open spec fn dec(w: Json, at: Seq<char>) -> Result<Json, Failure> {
        match w {
            Json::Bool(_) => Ok(w),
            _ => Err(mismatch(at, Kind::Bool, w)),
        }
    }

    proof fn lemma_round_trip(&self, at: Seq<char>) {
    }

    fn encode(&self) -> (r: Value) {
        Value::Bool(*self)
    }

    fn decode(w: &Value, at: &str) -> (r: Result<bool, DecodeError>) {
        match w {
            Value::Bool(b) => Ok(*b),
            _ => Err(type_mismatch(at, Kind::Bool, w)),
        }
    }
}

/// Decoding an integer field whose type holds `lo ..= hi`.
pub open spec fn int_dec(w: Json, at: Seq<char>, lo: int, hi: int) -> Result<Json, Failure> {
    match w {
        Json::Int(n) => if lo <= n <= hi {
            Ok(w)
        } else {
            Err(Failure::OutOfRange { field: at, value: n })
        },
        _ => Err(mismatch(at, Kind::Integer, w)),
    }
}

/// Reads an integer of the range `lo ..= hi`.
fn int_in(w: &Value, at: &str, lo: i128, hi: i128) -> (r: Result<i128, DecodeError>)
    ensures
        match r {
            Ok(n) => lo <= n <= hi && int_dec(w@, at@, lo as int, hi as int) == Ok::<Json, Failure>(Json::Int(n as int)),
            Err(e) => int_dec(w@, at@, lo as int, hi as int) == Err::<Json, Failure>(e@),
        },
{
    match w {
        Value::Int(n) => if lo <= *n && *n <= hi {
            Ok(*n)
        } else {
            Err(DecodeError::OutOfRange { field: String::from_str(at), value: *n })
        },
        _ => Err(type_mismatch(at, Kind::Integer, w)),
    }
}

impl Codec for i32 {
    open spec fn wf(&self) -> bool {
        true
    }

    open spec fn enc(&self) -> Json {
        Json::Int(*self as int)
    }

    open spec fn dec(w: Json, at: Seq<char>) -> Result<Json, Failure> {
        int_dec(w, at, i32::MIN as int, i32::MAX as int)
    }

    proof fn lemma_round_trip(&self, at: Seq<char>) {
    }

    fn encode(&self) -> (r: Value) {
        Value::Int(*self as i128)
    }

    fn decode(w: &Value, at: &str) -> (r: Result<i32, DecodeError>) {
        match int_in(w, at, i32::MIN as i128, i32::MAX as i128) {
            Ok(n) => Ok(n as i32),
            Err(e) => Err(e),
        }
    }
}

impl Codec for u32 {
    open spec fn wf(&self) -> bool {
        true
    }

    open spec fn enc(&self) -> Json {
        Json::Int(*self as int)
    }

    open spec fn dec(w: Json, at: Seq<char>) -> Result<Json, Failure> {
        int_dec(w, at, 0, u32::MAX as int)
    }

    proof fn lemma_round_trip(&self, at: Seq<char>) {
    }

    fn encode(&self) -> (r: Value) {
        Value::Int(*self as i128)
    }

    fn decode(w: &Value, at: &str) -> (r: Result<u32, DecodeError>) {
        match int_in(w, at, 0, u32::MAX as i128) {
            Ok(n) => Ok(n as u32),
            Err(e) => Err(e),
        }
    }
}

impl Codec for u64 {
    open spec fn wf(&self) -> bool {
        true
    }

    open spec fn enc(&self) -> Json {
        Json::Int(*self as int)
    }

    open spec fn dec(w: Json, at: Seq<char>) -> Result<Json, Failure> {
        int_dec(w, at, 0, u64::MAX as int)
    }

    proof fn lemma_round_trip(&self, at: Seq<char>) {
    }

    fn encode(&self) -> (r: Value) {
        Value::Int(*self as i128)
    }

    fn decode(w: &Value, at: &str) -> (r: Result<u64, DecodeError>) {
        match int_in(w, at, 0, u64::MAX as i128) {
            Ok(n) => Ok(n as u64),
            Err(e) => Err(e),
        }
    }
}

} // verus!
