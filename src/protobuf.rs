//! Well-known wrapper messages, and the workload selector.
use vstd::prelude::*;
use crate::codec::{
    Codec, opt_dec, opt_enc, opt_field, put_opt, put_req, req_dec, req_field, empty_entries,
    lemma_opt_field, lemma_req_field, has_key,
};
use crate::error::{DecodeError, Failure, mismatch, type_mismatch};
use crate::wire::{Json, Kind, Value, put, lemma_lookup_push, lemma_lookup_put, lemma_object_model};
use crate::collections::KeyMap;

verus! {

broadcast use {lemma_lookup_push, lemma_lookup_put, lemma_object_model, vstd::string::group_string_axioms};

/// Wrapper message for `uint32`.
#[derive(Clone, Debug, PartialEq, Eq)]
pub struct UInt32Value {
    /// The wrapped value.
    pub value: Option<u32>,
}

impl Codec for UInt32Value {
    open spec fn wf(&self) -> bool {
        true
    }

    open spec fn enc(&self) -> Json {
        let s = Seq::empty();
        let s = put(s, "value"@, opt_enc(self.value));
        Json::Object(s)
    }

    open spec fn dec(w: Json, at: Seq<char>) -> Result<Json, Failure> {
        match w {
            Json::Object(es) => {
                let d_value = opt_dec::<u32>(es, at, "value"@);
                if d_value is Err {
                    Err(d_value->Err_0)
                } else {
                    let s = Seq::empty();
                    let s = put(s, "value"@, d_value->Ok_0);
                    Ok(Json::Object(s))
                }
            },
            _ => Err(mismatch(at, Kind::Object, w)),
        }
    }

    proof fn lemma_round_trip(&self, at: Seq<char>) {
        UInt32Value::lemma_wire_keys();
        let s = Seq::empty();
        let s = put(s, "value"@, opt_enc(self.value));
        lemma_opt_field::<u32>(s, at, "value"@, self.value);
    }

    fn encode(&self) -> (r: Value) {
        let mut es = empty_entries();
        put_opt(&mut es, "value", &self.value);
        Value::Object(es)
    }

    fn decode(w: &Value, at: &str) -> (r: Result<UInt32Value, DecodeError>) {
        match w {
            Value::Object(es) => {
                let value = match opt_field::<u32>(es, at, "value") {
                    Ok(x) => x,
                    Err(e) => return Err(e),
                };
                Ok(UInt32Value { value })
            },
            _ => Err(type_mismatch(at, Kind::Object, w)),
        }
    }
}

impl UInt32Value {
    /// The wire keys of the type, as the proofs about its entries need them.
    proof fn lemma_wire_keys()
        ensures
            "value"@.len() == 5,
    {
        reveal_strlit("value");
    }

    /// A field that is absent leaves no key in the wire object.
    pub proof fn lemma_absent_fields_omitted(&self)
        ensures
            self.value is None ==> !has_key(self.enc(), "value"@),
    {
        UInt32Value::lemma_wire_keys();
    }
}

/// The criteria that select the workloads a configuration applies to.
#[derive(Clone, Debug, PartialEq, Eq)]
pub struct WorkloadSelector {
    /// Labels that select the pods or virtual machines.
    pub labels: KeyMap<String>,
}

impl Codec for WorkloadSelector {
    open spec fn wf(&self) -> bool {
        self.labels.wf()
    }

    open spec fn enc(&self) -> Json {
        let s = Seq::empty();
        let s = s.push(("labels"@, self.labels.enc()));
        Json::Object(s)
    }

    open spec fn dec(w: Json, at: Seq<char>) -> Result<Json, Failure> {
        match w {
            Json::Object(es) => {
                let d_labels = req_dec::<KeyMap<String>>(es, at, "labels"@);
                if d_labels is Err {
                    Err(d_labels->Err_0)
                } else {
                    let s = Seq::empty();
                    let s = s.push(("labels"@, d_labels->Ok_0));
                    Ok(Json::Object(s))
                }
            },
            _ => Err(mismatch(at, Kind::Object, w)),
        }
    }

    proof fn lemma_round_trip(&self, at: Seq<char>) {
        WorkloadSelector::lemma_wire_keys();
        let s = Seq::empty();
        let s = s.push(("labels"@, self.labels.enc()));
        lemma_req_field::<KeyMap<String>>(s, at, "labels"@, self.labels);
    }

    fn encode(&self) -> (r: Value) {
        let mut es = empty_entries();
        put_req(&mut es, "labels", self.labels.encode());
        Value::Object(es)
    }

    fn decode(w: &Value, at: &str) -> (r: Result<WorkloadSelector, DecodeError>) {
        match w {
            Value::Object(es) => {
                let labels = match req_field::<KeyMap<String>>(es, at, "labels") {
                    Ok(x) => x,
                    Err(e) => return Err(e),
                };
                Ok(WorkloadSelector { labels })
            },
            _ => Err(type_mismatch(at, Kind::Object, w)),
        }
    }
}

impl WorkloadSelector {
    /// The wire keys of the type, as the proofs about its entries need them.
    proof fn lemma_wire_keys()
        ensures
            "labels"@.len() == 6,
    {
        reveal_strlit("labels");
    }
}

} // verus!
