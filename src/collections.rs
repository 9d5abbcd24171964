//! Sequences and key-unique maps on the wire.
use vstd::prelude::*;
use crate::codec::Codec;
use crate::error::{DecodeError, Failure, mismatch, type_mismatch};
use crate::wire::{
    Json, Kind, Value, entries, items, lookup, find, lemma_lookup_push, lemma_object_model,
    lemma_array_model, lemma_lookup_none,
};

verus! {

broadcast use {lemma_lookup_push, lemma_object_model, lemma_array_model};

/// The wire images of a sequence of values.
pub open spec fn encs<T: Codec>(s: Seq<T>) -> Seq<Json> {
    Seq::new(s.len(), |i: int| s[i].enc())
}

/// Decoding the items of an array, in order; the first item that fails decides the failure.
pub open spec fn dec_items<T: Codec>(xs: Seq<Json>, at: Seq<char>) -> Result<Seq<Json>, Failure>
    decreases xs.len(),
{
    if xs.len() == 0 {
        Ok(Seq::empty())
    } else {
        match dec_items::<T>(xs.drop_last(), at) {
            Err(e) => Err(e),
            Ok(ys) => match T::dec(xs.last(), at) {
                Err(e) => Err(e),
                Ok(y) => Ok(ys.push(y)),
            },
        }
    }
}

proof fn lemma_items_round_trip<T: Codec>(s: Seq<T>, n: int, at: Seq<char>)
    requires
        0 <= n <= s.len(),
        forall|i: int| 0 <= i < s.len() ==> #[trigger] s[i].wf(),
    ensures
        dec_items::<T>(encs(s).take(n), at) == Ok::<Seq<Json>, Failure>(encs(s).take(n)),
    decreases n,
{
    if n > 0 {
        lemma_items_round_trip(s, n - 1, at);
        assert(encs(s).take(n).drop_last() =~= encs(s).take(n - 1));
        s[n - 1].lemma_round_trip(at);
        assert(encs(s).take(n).last() == s[n - 1].enc());
        assert(encs(s).take(n - 1).push(s[n - 1].enc()) =~= encs(s).take(n));
    } else {
        assert(encs(s).take(0) =~= Seq::<Json>::empty());
    }
}

/// A failure on a prefix of the items is the failure of the whole.
proof fn lemma_items_err_prefix<T: Codec>(xs: Seq<Json>, k: int, n: int, at: Seq<char>)
    requires
        0 <= k <= n <= xs.len(),
        dec_items::<T>(xs.take(k), at) is Err,
    ensures
        dec_items::<T>(xs.take(n), at) == dec_items::<T>(xs.take(k), at),
    decreases n - k,
{
    if n > k {
        lemma_items_err_prefix::<T>(xs, k, n - 1, at);
        assert(xs.take(n).drop_last() =~= xs.take(n - 1));
    }
}

/// A sequence: a wire array of the items' images, in order.
impl<T: Codec> Codec for Vec<T> {
    open spec fn wf(&self) -> bool {
        forall|i: int| 0 <= i < self.len() ==> #[trigger] self@[i].wf()
    }

    open spec fn enc(&self) -> Json {
        Json::Array(encs(self@))
    }

    open spec fn dec(w: Json, at: Seq<char>) -> Result<Json, Failure> {
        match w {
            Json::Array(xs) => match dec_items::<T>(xs, at) {
                Ok(ys) => Ok(Json::Array(ys)),
                Err(e) => Err(e),
            },
            _ => Err(mismatch(at, Kind::Array, w)),
        }
    }

    proof fn lemma_round_trip(&self, at: Seq<char>) {
        lemma_items_round_trip(self@, self.len() as int, at);
        assert(encs(self@).take(self.len() as int) =~= encs(self@));
    }

    fn encode(&self) -> (r: Value) {
        let mut out: Vec<Value> = Vec::new();
        let mut i: usize = 0;
        while i < self.len()
            invariant
                i <= self.len(),
                items(out@) =~= encs(self@).take(i as int),
            decreases self.len() - i,
        {
            let ghost prev = out@;
            out.push(self[i].encode());
            assert(items(out@) =~= items(prev).push(self@[i as int].enc()));
            i = i + 1;
        }
        assert(encs(self@).take(self.len() as int) =~= encs(self@));
        Value::Array(out)
    }

    fn decode(w: &Value, at: &str) -> (r: Result<Vec<T>, DecodeError>) {
        match w {
            Value::Array(a) => {
                proof {
                    lemma_array_model(*a);
                }
                let mut out: Vec<T> = Vec::new();
                let mut i: usize = 0;
                assert(items(a@).take(0) =~= Seq::<Json>::empty());
                assert(encs(out@) =~= Seq::<Json>::empty());
                while i < a.len()
                    invariant
                        i <= a.len(),
                        w@ == Json::Array(items(a@)),
                        out.len() == i,
                        forall|j: int| 0 <= j < i ==> #[trigger] out@[j].wf(),
                        dec_items::<T>(items(a@).take(i as int), at@) == Ok::<Seq<Json>, Failure>(encs(out@)),
                    decreases a.len() - i,
                {
                    assert(items(a@).take(i as int + 1).drop_last() =~= items(a@).take(i as int));
                    match T::decode(&a[i], at) {
                        Ok(x) => {
                            let ghost prev = out@;
                            out.push(x);
                            assert(encs(out@) =~= encs(prev).push(out@[i as int].enc()));
                        },
                        Err(e) => {
                            proof {
                                assert(items(a@).take(i as int + 1).last() == a@[i as int]@);
                                assert(dec_items::<T>(items(a@).take(i as int + 1), at@) == Err::<Seq<Json>, Failure>(e@));
                                lemma_items_err_prefix::<T>(items(a@), i as int + 1, a.len() as int, at@);
                                assert(items(a@).take(a.len() as int) =~= items(a@));
                            }
                            return Err(e);
                        },
                    }
                    i = i + 1;
                }
                assert(items(a@).take(a.len() as int) =~= items(a@));
                Ok(out)
            },
            _ => Err(type_mismatch(at, Kind::Array, w)),
        }
    }
}


/// A map from string keys to values, with unique keys. Entries keep the order in which they
/// were added, so that an encoding is stable.
#[derive(Clone, Debug, PartialEq, Eq)]
pub struct KeyMap<T> {
    pub entries: Vec<(String, T)>,
}

/// The wire entries of a sequence of key-value pairs.
pub open spec fn pair_encs<T: Codec>(s: Seq<(String, T)>) -> Seq<(Seq<char>, Json)> {
    Seq::new(s.len(), |i: int| (s[i].0@, s[i].1.enc()))
}

pub open spec fn keys_unique<T>(s: Seq<(String, T)>) -> bool {
    forall|i: int, j: int| 0 <= i < j < s.len() ==> #[trigger] s[i].0@ != #[trigger] s[j].0@
}

/// Decoding the entries of a map, in order: a key seen before fails, as does the first value
/// that fails.
pub open spec fn dec_pairs<T: Codec>(es: Seq<(Seq<char>, Json)>, at: Seq<char>) -> Result<
    Seq<(Seq<char>, Json)>,
    Failure,
>
    decreases es.len(),
{
    if es.len() == 0 {
        Ok(Seq::empty())
    } else {
        match dec_pairs::<T>(es.drop_last(), at) {
            Err(e) => Err(e),
            Ok(ys) => if lookup(es.drop_last(), es.last().0) is Some {
                Err(Failure::DuplicateKey { map_name: at, key: es.last().0 })
            } else {
                match T::dec(es.last().1, at) {
                    Err(e) => Err(e),
                    Ok(y) => Ok(ys.push((es.last().0, y))),
                }
            },
        }
    }
}

proof fn lemma_pairs_round_trip<T: Codec>(s: Seq<(String, T)>, n: int, at: Seq<char>)
    requires
        0 <= n <= s.len(),
        keys_unique(s),
        forall|i: int| 0 <= i < s.len() ==> #[trigger] s[i].1.wf(),
    ensures
        dec_pairs::<T>(pair_encs(s).take(n), at) == Ok::<Seq<(Seq<char>, Json)>, Failure>(
            pair_encs(s).take(n),
        ),
    decreases n,
{
    if n > 0 {
        let p = pair_encs(s).take(n);
        lemma_pairs_round_trip(s, n - 1, at);
        assert(p.drop_last() =~= pair_encs(s).take(n - 1));
        s[n - 1].1.lemma_round_trip(at);
        assert(p.last() == (s[n - 1].0@, s[n - 1].1.enc()));
        lemma_lookup_none(pair_encs(s).take(n - 1), s[n - 1].0@);
        assert forall|j: int| 0 <= j < n - 1 implies #[trigger] pair_encs(s).take(n - 1)[j].0 != s[n
            - 1].0@ by {
            assert(s[j].0@ != s[n - 1].0@);
        }
        assert(pair_encs(s).take(n - 1).push(p.last()) =~= p);
    } else {
        assert(pair_encs(s).take(0) =~= Seq::<(Seq<char>, Json)>::empty());
    }
}

proof fn lemma_pairs_err_prefix<T: Codec>(es: Seq<(Seq<char>, Json)>, k: int, n: int, at: Seq<char>)
    requires
        0 <= k <= n <= es.len(),
        dec_pairs::<T>(es.take(k), at) is Err,
    ensures
        dec_pairs::<T>(es.take(n), at) == dec_pairs::<T>(es.take(k), at),
    decreases n - k,
{
    if n > k {
        lemma_pairs_err_prefix::<T>(es, k, n - 1, at);
        assert(es.take(n).drop_last() =~= es.take(n - 1));
    }
}

/// A map: a wire object with one entry per key, in the map's order.
impl<T: Codec> Codec for KeyMap<T> {
    open spec fn wf(&self) -> bool {
        keys_unique(self.entries@) && forall|i: int|
            0 <= i < self.entries.len() ==> #[trigger] self.entries@[i].1.wf()
    }

    open spec fn enc(&self) -> Json {
        Json::Object(pair_encs(self.entries@))
    }

    open spec fn dec(w: Json, at: Seq<char>) -> Result<Json, Failure> {
        match w {
            Json::Object(es) => match dec_pairs::<T>(es, at) {
                Ok(ys) => Ok(Json::Object(ys)),
                Err(e) => Err(e),
            },
            _ => Err(mismatch(at, Kind::Object, w)),
        }
    }

    proof fn lemma_round_trip(&self, at: Seq<char>) {
        lemma_pairs_round_trip(self.entries@, self.entries.len() as int, at);
        assert(pair_encs(self.entries@).take(self.entries.len() as int) =~= pair_encs(self.entries@));
    }

    fn encode(&self) -> (r: Value) {
        let mut out: Vec<(String, Value)> = Vec::new();
        let mut i: usize = 0;
        while i < self.entries.len()
            invariant
                i <= self.entries.len(),
                entries(out@) =~= pair_encs(self.entries@).take(i as int),
            decreases self.entries.len() - i,
        {
            let ghost prev = out@;
            out.push((self.entries[i].0.clone(), self.entries[i].1.encode()));
            assert(entries(out@) =~= entries(prev).push(
                (self.entries@[i as int].0@, self.entries@[i as int].1.enc()),
            ));
            i = i + 1;
        }
        assert(pair_encs(self.entries@).take(self.entries.len() as int) =~= pair_encs(self.entries@));
        Value::Object(out)
    }

    fn decode(w: &Value, at: &str) -> (r: Result<KeyMap<T>, DecodeError>) {
        match w {
            Value::Object(es) => {
                proof {
                    lemma_object_model(*es);
                }
                let mut out: Vec<(String, T)> = Vec::new();
                let mut i: usize = 0;
                assert(entries(es@).take(0) =~= Seq::<(Seq<char>, Json)>::empty());
                assert(pair_encs(out@) =~= Seq::<(Seq<char>, Json)>::empty());
                while i < es.len()
                    invariant
                        i <= es.len(),
                        w@ == Json::Object(entries(es@)),
                        out.len() == i,
                        forall|j: int| 0 <= j < i ==> #[trigger] out@[j].1.wf(),
                        forall|j: int| 0 <= j < i ==> #[trigger] out@[j].0@ == es@[j].0@,
                        keys_unique(out@),
                        dec_pairs::<T>(entries(es@).take(i as int), at@) == Ok::<
                            Seq<(Seq<char>, Json)>,
                            Failure,
                        >(pair_encs(out@)),
                    decreases es.len() - i,
                {
                    let ghost pre = entries(es@).take(i as int + 1);
                    assert(pre.drop_last() =~= entries(es@).take(i as int));
                    assert(pre.last() == (es@[i as int].0@, es@[i as int].1@));
                    if find(es, es[i].0.as_str(), i).is_some() {
                        let e = DecodeError::DuplicateKey {
                            map_name: String::from_str(at),
                            key: es[i].0.clone(),
                        };
                        proof {
                            lemma_pairs_err_prefix::<T>(entries(es@), i as int + 1, es.len() as int, at@);
                            assert(entries(es@).take(es.len() as int) =~= entries(es@));
                        }
                        return Err(e);
                    }
                    proof {
                        lemma_lookup_none(entries(es@).take(i as int), es@[i as int].0@);
                        assert forall|j: int| 0 <= j < i implies #[trigger] out@[j].0@ != es@[i as int].0@ by {
                            assert(entries(es@).take(i as int)[j].0 == es@[j].0@);
                        }
                    }
                    match T::decode(&es[i].1, at) {
                        Ok(x) => {
                            let ghost prev = out@;
                            out.push((es[i].0.clone(), x));
                            assert(pair_encs(out@) =~= pair_encs(prev).push(
                                (es@[i as int].0@, out@[i as int].1.enc()),
                            ));
                        },
                        Err(e) => {
                            proof {
                                lemma_pairs_err_prefix::<T>(entries(es@), i as int + 1, es.len() as int, at@);
                                assert(entries(es@).take(es.len() as int) =~= entries(es@));
                            }
                            return Err(e);
                        },
                    }
                    i = i + 1;
                }
                assert(entries(es@).take(es.len() as int) =~= entries(es@));
                Ok(KeyMap { entries: out })
            },
            _ => Err(type_mismatch(at, Kind::Object, w)),
        }
    }
}


pub open spec fn has_entry<T>(s: Seq<(String, T)>, k: Seq<char>) -> bool {
    exists|i: int| 0 <= i < s.len() && #[trigger] s[i].0@ == k
}

impl<T> KeyMap<T> {
    pub fn new() -> (r: KeyMap<T>)
        ensures
            r.entries@.len() == 0,
    {
        KeyMap { entries: Vec::new() }
    }

    pub fn len(&self) -> (r: usize)
        ensures
            r == self.entries@.len(),
    {
        self.entries.len()
    }

    /// The value of `key`, if the map has it.
    pub fn get(&self, key: &str) -> (r: Option<&T>)
        ensures
            match r {
                Some(v) => exists|i: int|
                    0 <= i < self.entries@.len() && #[trigger] self.entries@[i].0@ == key@
                        && self.entries@[i].1 == *v,
                None => !has_entry(self.entries@, key@),
            },
    {
        let k = String::from_str(key);
        let mut i: usize = 0;
        while i < self.entries.len()
            invariant
                i <= self.entries@.len(),
                k@ == key@,
                forall|j: int| 0 <= j < i ==> #[trigger] self.entries@[j].0@ != key@,
            decreases self.entries.len() - i,
        {
            if self.entries[i].0 == k {
                return Some(&self.entries[i].1);
            }
            i = i + 1;
        }
        None
    }

    /// Sets the value of `key`: in place where the map has the key, else as a new last entry.
    pub fn insert(&mut self, key: String, value: T)
        requires
            keys_unique(old(self).entries@),
        ensures
            keys_unique(final(self).entries@),
            has_entry(old(self).entries@, key@) ==> final(self).entries@.len() == old(self).entries@.len()
                && forall|i: int|
                0 <= i < old(self).entries@.len() ==> #[trigger] final(self).entries@[i] == if old(
                    self,
                ).entries@[i].0@ == key@ {
                    (key, value)
                } else {
                    old(self).entries@[i]
                },
            !has_entry(old(self).entries@, key@) ==> final(self).entries@ == old(self).entries@.push(
                (key, value),
            ),
    {
        let mut i: usize = 0;
        while i < self.entries.len()
            invariant
                i <= self.entries@.len(),
                self.entries@ == old(self).entries@,
                keys_unique(self.entries@),
                forall|j: int| 0 <= j < i ==> #[trigger] self.entries@[j].0@ != key@,
            decreases self.entries.len() - i,
        {
            if self.entries[i].0 == key {
                let ghost before = self.entries@;
                self.entries.set(i, (key, value));
                assert forall|j: int| 0 <= j < before.len() && j != i implies before[j].0@ != key@ by {
                    if j < i {
                        assert(before[j].0@ != before[i as int].0@);
                    } else {
                        assert(before[i as int].0@ != before[j].0@);
                    }
                }
                assert(keys_unique(self.entries@)) by {
                    assert forall|a: int, b: int| 0 <= a < b < self.entries@.len() implies #[trigger] self.entries@[a].0@
                        != #[trigger] self.entries@[b].0@ by {
                        if a != i && b != i {
                            assert(before[a].0@ != before[b].0@);
                        }
                    }
                }
                return;
            }
            i = i + 1;
        }
        self.entries.push((key, value));
    }
}

} // verus!
