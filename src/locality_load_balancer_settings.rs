//! Locality-weighted load balancing.
use vstd::prelude::*;
use crate::codec::{Codec, put_req, req_dec, req_field, empty_entries, lemma_req_field};
use crate::error::{DecodeError, Failure, mismatch, type_mismatch};
use crate::wire::{Json, Kind, Value, lemma_lookup_push, lemma_lookup_put, lemma_object_model};
use crate::collections::KeyMap;

verus! {

broadcast use {lemma_lookup_push, lemma_lookup_put, lemma_object_model, vstd::string::group_string_axioms};

/// How traffic from the `from` locality is distributed over a set of `to` localities.
#[derive(Clone, Debug, PartialEq, Eq)]
pub struct Distribute {
    /// Originating locality, `/` separated: `region/zone/sub_zone`.
    pub from: String,
    /// Upstream localities with their traffic weights.
    pub to: KeyMap<u32>,
}

impl Codec for Distribute {
    open spec fn wf(&self) -> bool {
        self.to.wf()
    }

    open spec fn enc(&self) -> Json {
        let s = Seq::empty();
        let s = s.push(("from"@, self.from.enc()));
        let s = s.push(("to"@, self.to.enc()));
        Json::Object(s)
    }

    open spec fn dec(w: Json, at: Seq<char>) -> Result<Json, Failure> {
        match w {
            Json::Object(es) => {
                let d_from = req_dec::<String>(es, at, "from"@);
                let d_to = req_dec::<KeyMap<u32>>(es, at, "to"@);
                if d_from is Err {
                    Err(d_from->Err_0)
                } else if d_to is Err {
                    Err(d_to->Err_0)
                } else {
                    let s = Seq::empty();
                    let s = s.push(("from"@, d_from->Ok_0));
                    let s = s.push(("to"@, d_to->Ok_0));
                    Ok(Json::Object(s))
                }
            },
            _ => Err(mismatch(at, Kind::Object, w)),
        }
    }

    proof fn lemma_round_trip(&self, at: Seq<char>) {
        Distribute::lemma_wire_keys();
        let s = Seq::empty();
        let s = s.push(("from"@, self.from.enc()));
        let s = s.push(("to"@, self.to.enc()));
        lemma_req_field::<String>(s, at, "from"@, self.from);
        lemma_req_field::<KeyMap<u32>>(s, at, "to"@, self.to);
    }

    fn encode(&self) -> (r: Value) {
        let mut es = empty_entries();
        put_req(&mut es, "from", self.from.encode());
        put_req(&mut es, "to", self.to.encode());
        Value::Object(es)
    }

    fn decode(w: &Value, at: &str) -> (r: Result<Distribute, DecodeError>) {
        match w {
            Value::Object(es) => {
                let from = match req_field::<String>(es, at, "from") {
                    Ok(x) => x,
                    Err(e) => return Err(e),
                };
                let to = match req_field::<KeyMap<u32>>(es, at, "to") {
                    Ok(x) => x,
                    Err(e) => return Err(e),
                };
                Ok(Distribute { from, to })
            },
            _ => Err(type_mismatch(at, Kind::Object, w)),
        }
    }
}

impl Distribute {
    /// The wire keys of the type, as the proofs about its entries need them.
    proof fn lemma_wire_keys()
        ensures
            "from"@.len() == 4,
            "to"@.len() == 2,
    {
        reveal_strlit("from");
        reveal_strlit("to");
    }
}

/// Traffic failover policy across regions.
#[derive(Clone, Debug, PartialEq, Eq)]
pub struct Failover {
    /// Originating region.
    pub from: String,
    /// Region that traffic fails over to.
    pub to: String,
}

impl Codec for Failover {
    open spec fn wf(&self) -> bool {
        true
    }

    open spec fn enc(&self) -> Json {
        let s = Seq::empty();
        let s = s.push(("from"@, self.from.enc()));
        let s = s.push(("to"@, self.to.enc()));
        Json::Object(s)
    }

    open spec fn dec(w: Json, at: Seq<char>) -> Result<Json, Failure> {
        match w {
            Json::Object(es) => {
                let d_from = req_dec::<String>(es, at, "from"@);
                let d_to = req_dec::<String>(es, at, "to"@);
                if d_from is Err {
                    Err(d_from->Err_0)
                } else if d_to is Err {
                    Err(d_to->Err_0)
                } else {
                    let s = Seq::empty();
                    let s = s.push(("from"@, d_from->Ok_0));
                    let s = s.push(("to"@, d_to->Ok_0));
                    Ok(Json::Object(s))
                }
            },
            _ => Err(mismatch(at, Kind::Object, w)),
        }
    }

    proof fn lemma_round_trip(&self, at: Seq<char>) {
        Failover::lemma_wire_keys();
        let s = Seq::empty();
        let s = s.push(("from"@, self.from.enc()));
        let s = s.push(("to"@, self.to.enc()));
        lemma_req_field::<String>(s, at, "from"@, self.from);
        lemma_req_field::<String>(s, at, "to"@, self.to);
    }

    fn encode(&self) -> (r: Value) {
        let mut es = empty_entries();
        put_req(&mut es, "from", self.from.encode());
        put_req(&mut es, "to", self.to.encode());
        Value::Object(es)
    }

    fn decode(w: &Value, at: &str) -> (r: Result<Failover, DecodeError>) {
        match w {
            Value::Object(es) => {
                let from = match req_field::<String>(es, at, "from") {
                    Ok(x) => x,
                    Err(e) => return Err(e),
                };
                let to = match req_field::<String>(es, at, "to") {
                    Ok(x) => x,
                    Err(e) => return Err(e),
                };
                Ok(Failover { from, to })
            },
            _ => Err(type_mismatch(at, Kind::Object, w)),
        }
    }
}

impl Failover {
    /// The wire keys of the type, as the proofs about its entries need them.
    proof fn lemma_wire_keys()
        ensures
            "from"@.len() == 4,
            "to"@.len() == 2,
    {
        reveal_strlit("from");
        reveal_strlit("to");
    }
}

} // verus!
