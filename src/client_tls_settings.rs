//! Settings of the TLS connection to an upstream endpoint.
use vstd::prelude::*;
use crate::codec::{Codec, is_tag};
use crate::error::{DecodeError, Failure, mismatch, type_mismatch};
use crate::wire::{Json, Kind, Value, lemma_lookup_push, lemma_lookup_put, lemma_object_model};

verus! {

broadcast use {lemma_lookup_push, lemma_lookup_put, lemma_object_model, vstd::string::group_string_axioms};

/// TLS connection mode.
#[allow(non_camel_case_types)]
#[derive(Clone, Copy, Debug, PartialEq, Eq)]
pub enum TLSmode {
    /// Do not set up a TLS connection to the upstream endpoint.
    DISABLE,
    /// Originate a TLS connection to the upstream endpoint.
    SIMPLE,
    /// Mutual TLS, presenting client certificates for authentication.
    MUTUAL,
    /// Mutual TLS with certificates that the mesh generates.
    ISTIO_MUTUAL,
}

impl TLSmode {
    /// The wire tag of the variant.
    pub open spec fn tag(&self) -> Seq<char> {
        match self {
            TLSmode::DISABLE => "DISABLE"@,
            TLSmode::SIMPLE => "SIMPLE"@,
            TLSmode::MUTUAL => "MUTUAL"@,
            TLSmode::ISTIO_MUTUAL => "ISTIO_MUTUAL"@,
        }
    }
}

impl Codec for TLSmode {
    open spec fn wf(&self) -> bool {
        true
    }

    open spec fn enc(&self) -> Json {
        Json::Str(self.tag())
    }

    open spec fn dec(w: Json, at: Seq<char>) -> Result<Json, Failure> {
        match w {
            Json::Str(s) => if s == "DISABLE"@ || s == "SIMPLE"@ || s == "MUTUAL"@ || s == "ISTIO_MUTUAL"@ {
                Ok(w)
            } else {
                Err(Failure::UnknownVariant { enum_name: "TLSmode"@, tag: s })
            },
            _ => Err(mismatch(at, Kind::String, w)),
        }
    }

    proof fn lemma_round_trip(&self, at: Seq<char>) {
    }

    fn encode(&self) -> (r: Value) {
        let tag = match self {
            TLSmode::DISABLE => "DISABLE",
            TLSmode::SIMPLE => "SIMPLE",
            TLSmode::MUTUAL => "MUTUAL",
            TLSmode::ISTIO_MUTUAL => "ISTIO_MUTUAL",
        };
        Value::Str(String::from_str(tag))
    }

    fn decode(w: &Value, at: &str) -> (r: Result<TLSmode, DecodeError>) {
        match w {
            Value::Str(s) => {
                if is_tag(s, "DISABLE") {
                    Ok(TLSmode::DISABLE)
                } else if is_tag(s, "SIMPLE") {
                    Ok(TLSmode::SIMPLE)
                } else if is_tag(s, "MUTUAL") {
                    Ok(TLSmode::MUTUAL)
                } else if is_tag(s, "ISTIO_MUTUAL") {
                    Ok(TLSmode::ISTIO_MUTUAL)
                } else {
                    Err(DecodeError::UnknownVariant { enum_name: String::from_str("TLSmode"), tag: s.clone() })
                }
            },
            _ => Err(type_mismatch(at, Kind::String, w)),
        }
    }
}

} // verus!
