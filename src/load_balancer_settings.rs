//! Load balancing policies.
use vstd::prelude::*;
use crate::codec::{
    Codec, opt_dec, opt_enc, opt_field, put_opt, put_req, req_dec, req_field, empty_entries,
    lemma_opt_field, lemma_req_field, has_key, is_tag, tag_step, add_tag, has_field,
};
use crate::error::{DecodeError, Failure, mismatch, strings, type_mismatch};
use crate::wire::{
    Json, Kind, Value, lookup, put, lemma_lookup_push, lemma_lookup_put, lemma_object_model,
};
use crate::duration::Duration;

verus! {

broadcast use {lemma_lookup_push, lemma_lookup_put, lemma_object_model, vstd::string::group_string_axioms};

/// An HTTP cookie used as the hash key of the consistent hash load balancer.
#[derive(Clone, Debug, PartialEq, Eq)]
pub struct HTTPCookie {
    /// Name of the cookie.
    pub name: String,
    /// Path to set for the cookie.
    pub path: Option<String>,
    /// Lifetime of the cookie.
    pub ttl: Duration,
}

impl Codec for HTTPCookie {
    open spec fn wf(&self) -> bool {
        true
    }

    open spec fn enc(&self) -> Json {
        let s = Seq::empty();
        let s = s.push(("name"@, self.name.enc()));
        let s = put(s, "path"@, opt_enc(self.path));
        let s = s.push(("ttl"@, self.ttl.enc()));
        Json::Object(s)
    }

    open spec fn dec(w: Json, at: Seq<char>) -> Result<Json, Failure> {
        match w {
            Json::Object(es) => {
                let d_name = req_dec::<String>(es, at, "name"@);
                let d_path = opt_dec::<String>(es, at, "path"@);
                let d_ttl = req_dec::<Duration>(es, at, "ttl"@);
                if d_name is Err {
                    Err(d_name->Err_0)
                } else if d_path is Err {
                    Err(d_path->Err_0)
                } else if d_ttl is Err {
                    Err(d_ttl->Err_0)
                } else {
                    let s = Seq::empty();
                    let s = s.push(("name"@, d_name->Ok_0));
                    let s = put(s, "path"@, d_path->Ok_0);
                    let s = s.push(("ttl"@, d_ttl->Ok_0));
                    Ok(Json::Object(s))
                }
            },
            _ => Err(mismatch(at, Kind::Object, w)),
        }
    }

    proof fn lemma_round_trip(&self, at: Seq<char>) {
        HTTPCookie::lemma_wire_keys();
        let s = Seq::empty();
        let s = s.push(("name"@, self.name.enc()));
        let s = put(s, "path"@, opt_enc(self.path));
        let s = s.push(("ttl"@, self.ttl.enc()));
        lemma_req_field::<String>(s, at, "name"@, self.name);
        lemma_opt_field::<String>(s, at, "path"@, self.path);
        lemma_req_field::<Duration>(s, at, "ttl"@, self.ttl);
    }

    fn encode(&self) -> (r: Value) {
        let mut es = empty_entries();
        put_req(&mut es, "name", self.name.encode());
        put_opt(&mut es, "path", &self.path);
        put_req(&mut es, "ttl", self.ttl.encode());
        Value::Object(es)
    }

    fn decode(w: &Value, at: &str) -> (r: Result<HTTPCookie, DecodeError>) {
        match w {
            Value::Object(es) => {
                let name = match req_field::<String>(es, at, "name") {
                    Ok(x) => x,
                    Err(e) => return Err(e),
                };
                let path = match opt_field::<String>(es, at, "path") {
                    Ok(x) => x,
                    Err(e) => return Err(e),
                };
                let ttl = match req_field::<Duration>(es, at, "ttl") {
                    Ok(x) => x,
                    Err(e) => return Err(e),
                };
                Ok(HTTPCookie { name, path, ttl })
            },
            _ => Err(type_mismatch(at, Kind::Object, w)),
        }
    }
}

impl HTTPCookie {
    /// The wire keys of the type, as the proofs about its entries need them.
    proof fn lemma_wire_keys()
        ensures
            "name"@.len() == 4,
            "name"@[0] == 'n',
            "path"@.len() == 4,
            "path"@[0] == 'p',
            "ttl"@.len() == 3,
    {
        reveal_strlit("name");
        reveal_strlit("path");
        reveal_strlit("ttl");
    }

    /// A field that is absent leaves no key in the wire object.
    pub proof fn lemma_absent_fields_omitted(&self)
        ensures
            self.path is None ==> !has_key(self.enc(), "path"@),
    {
        HTTPCookie::lemma_wire_keys();
    }
}

/// Consistent hash-based load balancing: the key that the hash is taken of.
///
/// On the wire a variant is an object; the key that only that variant has tells which it is.
#[allow(non_camel_case_types)]
#[derive(Clone, Debug, PartialEq, Eq)]
pub enum ConsistentHashLB {
    HttpHeaderName {
        http_header_name: String,
        minimum_ring_size: Option<u64>,
    },
    HttpCookie {
        http_cookie: HTTPCookie,
        minimum_ring_size: Option<u64>,
    },
    UseSourceIp {
        use_source_ip: bool,
        minimum_ring_size: Option<u64>,
    },
    HttpQueryParameterName {
        http_query_parameter_name: String,
        minimum_ring_size: Option<u64>,
    },
}

impl Codec for ConsistentHashLB {
    open spec fn wf(&self) -> bool {
        match self {
            ConsistentHashLB::HttpHeaderName { http_header_name, minimum_ring_size } => true,
            ConsistentHashLB::HttpCookie { http_cookie, minimum_ring_size } => (*http_cookie).wf(),
            ConsistentHashLB::UseSourceIp { use_source_ip, minimum_ring_size } => true,
            ConsistentHashLB::HttpQueryParameterName { http_query_parameter_name, minimum_ring_size } => true,
        }
    }

    open spec fn enc(&self) -> Json {
        match self {
            ConsistentHashLB::HttpHeaderName { http_header_name, minimum_ring_size } => {
                let s = Seq::empty();
                let s = s.push(("httpHeaderName"@, (*http_header_name).enc()));
                let s = put(s, "minimumRingSize"@, opt_enc((*minimum_ring_size)));
                Json::Object(s)
            },
            ConsistentHashLB::HttpCookie { http_cookie, minimum_ring_size } => {
                let s = Seq::empty();
                let s = s.push(("httpCookie"@, (*http_cookie).enc()));
                let s = put(s, "minimumRingSize"@, opt_enc((*minimum_ring_size)));
                Json::Object(s)
            },
            ConsistentHashLB::UseSourceIp { use_source_ip, minimum_ring_size } => {
                let s = Seq::empty();
                let s = s.push(("useSourceIp"@, (*use_source_ip).enc()));
                let s = put(s, "minimumRingSize"@, opt_enc((*minimum_ring_size)));
                Json::Object(s)
            },
            ConsistentHashLB::HttpQueryParameterName { http_query_parameter_name, minimum_ring_size } => {
                let s = Seq::empty();
                let s = s.push(("httpQueryParameterName"@, (*http_query_parameter_name).enc()));
                let s = put(s, "minimumRingSize"@, opt_enc((*minimum_ring_size)));
                Json::Object(s)
            },
        }
    }

    open spec fn dec(w: Json, at: Seq<char>) -> Result<Json, Failure> {
        match w {
            Json::Object(es) => {
                let t = Seq::empty();
                let t = tag_step(t, es, "httpHeaderName"@);
                let t = tag_step(t, es, "httpCookie"@);
                let t = tag_step(t, es, "useSourceIp"@);
                let t = tag_step(t, es, "httpQueryParameterName"@);
                if t.len() == 0 {
                    Err(Failure::NoMatchingVariant { union_name: "ConsistentHashLB"@ })
                } else if t.len() > 1 {
                    Err(Failure::AmbiguousVariant { union_name: "ConsistentHashLB"@, tags: t })
                } else if lookup(es, "httpHeaderName"@) is Some {
                    let d_http_header_name = req_dec::<String>(es, at, "httpHeaderName"@);
                    let d_minimum_ring_size = opt_dec::<u64>(es, at, "minimumRingSize"@);
                    if d_http_header_name is Err {
                        Err(d_http_header_name->Err_0)
                    } else if d_minimum_ring_size is Err {
                        Err(d_minimum_ring_size->Err_0)
                    } else {
                        let s = Seq::empty();
                        let s = s.push(("httpHeaderName"@, d_http_header_name->Ok_0));
                        let s = put(s, "minimumRingSize"@, d_minimum_ring_size->Ok_0);
                        Ok(Json::Object(s))
                    }
                } else if lookup(es, "httpCookie"@) is Some {
                    let d_http_cookie = req_dec::<HTTPCookie>(es, at, "httpCookie"@);
                    let d_minimum_ring_size = opt_dec::<u64>(es, at, "minimumRingSize"@);
                    if d_http_cookie is Err {
                        Err(d_http_cookie->Err_0)
                    } else if d_minimum_ring_size is Err {
                        Err(d_minimum_ring_size->Err_0)
                    } else {
                        let s = Seq::empty();
                        let s = s.push(("httpCookie"@, d_http_cookie->Ok_0));
                        let s = put(s, "minimumRingSize"@, d_minimum_ring_size->Ok_0);
                        Ok(Json::Object(s))
                    }
                } else if lookup(es, "useSourceIp"@) is Some {
                    let d_use_source_ip = req_dec::<bool>(es, at, "useSourceIp"@);
                    let d_minimum_ring_size = opt_dec::<u64>(es, at, "minimumRingSize"@);
                    if d_use_source_ip is Err {
                        Err(d_use_source_ip->Err_0)
                    } else if d_minimum_ring_size is Err {
                        Err(d_minimum_ring_size->Err_0)
                    } else {
                        let s = Seq::empty();
                        let s = s.push(("useSourceIp"@, d_use_source_ip->Ok_0));
                        let s = put(s, "minimumRingSize"@, d_minimum_ring_size->Ok_0);
                        Ok(Json::Object(s))
                    }
                } else {
                    let d_http_query_parameter_name = req_dec::<String>(es, at, "httpQueryParameterName"@);
                    let d_minimum_ring_size = opt_dec::<u64>(es, at, "minimumRingSize"@);
                    if d_http_query_parameter_name is Err {
                        Err(d_http_query_parameter_name->Err_0)
                    } else if d_minimum_ring_size is Err {
                        Err(d_minimum_ring_size->Err_0)
                    } else {
                        let s = Seq::empty();
                        let s = s.push(("httpQueryParameterName"@, d_http_query_parameter_name->Ok_0));
                        let s = put(s, "minimumRingSize"@, d_minimum_ring_size->Ok_0);
                        Ok(Json::Object(s))
                    }
                }
            },
            _ => Err(mismatch(at, Kind::Object, w)),
        }
    }

    proof fn lemma_round_trip(&self, at: Seq<char>) {
        ConsistentHashLB::lemma_wire_keys();
        match self {
            ConsistentHashLB::HttpHeaderName { http_header_name, minimum_ring_size } => {
                let s = Seq::empty();
                let s = s.push(("httpHeaderName"@, (*http_header_name).enc()));
                let s = put(s, "minimumRingSize"@, opt_enc((*minimum_ring_size)));
                lemma_req_field::<String>(s, at, "httpHeaderName"@, (*http_header_name));
                lemma_opt_field::<u64>(s, at, "minimumRingSize"@, (*minimum_ring_size));
            },
            ConsistentHashLB::HttpCookie { http_cookie, minimum_ring_size } => {
                let s = Seq::empty();
                let s = s.push(("httpCookie"@, (*http_cookie).enc()));
                let s = put(s, "minimumRingSize"@, opt_enc((*minimum_ring_size)));
                lemma_req_field::<HTTPCookie>(s, at, "httpCookie"@, (*http_cookie));
                lemma_opt_field::<u64>(s, at, "minimumRingSize"@, (*minimum_ring_size));
            },
            ConsistentHashLB::UseSourceIp { use_source_ip, minimum_ring_size } => {
                let s = Seq::empty();
                let s = s.push(("useSourceIp"@, (*use_source_ip).enc()));
                let s = put(s, "minimumRingSize"@, opt_enc((*minimum_ring_size)));
                lemma_req_field::<bool>(s, at, "useSourceIp"@, (*use_source_ip));
                lemma_opt_field::<u64>(s, at, "minimumRingSize"@, (*minimum_ring_size));
            },
            ConsistentHashLB::HttpQueryParameterName { http_query_parameter_name, minimum_ring_size } => {
                let s = Seq::empty();
                let s = s.push(("httpQueryParameterName"@, (*http_query_parameter_name).enc()));
                let s = put(s, "minimumRingSize"@, opt_enc((*minimum_ring_size)));
                lemma_req_field::<String>(s, at, "httpQueryParameterName"@, (*http_query_parameter_name));
                lemma_opt_field::<u64>(s, at, "minimumRingSize"@, (*minimum_ring_size));
            },
        }
    }

    fn encode(&self) -> (r: Value) {
        match self {
            ConsistentHashLB::HttpHeaderName { http_header_name, minimum_ring_size } => {
                let mut es = empty_entries();
                put_req(&mut es, "httpHeaderName", http_header_name.encode());
                put_opt(&mut es, "minimumRingSize", &minimum_ring_size);
                Value::Object(es)
            },
            ConsistentHashLB::HttpCookie { http_cookie, minimum_ring_size } => {
                let mut es = empty_entries();
                put_req(&mut es, "httpCookie", http_cookie.encode());
                put_opt(&mut es, "minimumRingSize", &minimum_ring_size);
                Value::Object(es)
            },
            ConsistentHashLB::UseSourceIp { use_source_ip, minimum_ring_size } => {
                let mut es = empty_entries();
                put_req(&mut es, "useSourceIp", use_source_ip.encode());
                put_opt(&mut es, "minimumRingSize", &minimum_ring_size);
                Value::Object(es)
            },
            ConsistentHashLB::HttpQueryParameterName { http_query_parameter_name, minimum_ring_size } => {
                let mut es = empty_entries();
                put_req(&mut es, "httpQueryParameterName", http_query_parameter_name.encode());
                put_opt(&mut es, "minimumRingSize", &minimum_ring_size);
                Value::Object(es)
            },
        }
    }

    fn decode(w: &Value, at: &str) -> (r: Result<ConsistentHashLB, DecodeError>) {
        match w {
            Value::Object(es) => {
                let mut tags: Vec<String> = Vec::new();
                assert(strings(tags@) =~= Seq::<Seq<char>>::empty());
                add_tag(&mut tags, es, "httpHeaderName");
                add_tag(&mut tags, es, "httpCookie");
                add_tag(&mut tags, es, "useSourceIp");
                add_tag(&mut tags, es, "httpQueryParameterName");
                if tags.len() == 0 {
                    Err(DecodeError::NoMatchingVariant { union_name: String::from_str("ConsistentHashLB") })
                } else if tags.len() > 1 {
                    Err(DecodeError::AmbiguousVariant { union_name: String::from_str("ConsistentHashLB"), tags })
                } else if has_field(es, "httpHeaderName") {
                    let http_header_name = match req_field::<String>(es, at, "httpHeaderName") {
                        Ok(x) => x,
                        Err(e) => return Err(e),
                    };
                    let minimum_ring_size = match opt_field::<u64>(es, at, "minimumRingSize") {
                        Ok(x) => x,
                        Err(e) => return Err(e),
                    };
                    Ok(ConsistentHashLB::HttpHeaderName { http_header_name, minimum_ring_size })
                } else if has_field(es, "httpCookie") {
                    let http_cookie = match req_field::<HTTPCookie>(es, at, "httpCookie") {
                        Ok(x) => x,
                        Err(e) => return Err(e),
                    };
                    let minimum_ring_size = match opt_field::<u64>(es, at, "minimumRingSize") {
                        Ok(x) => x,
                        Err(e) => return Err(e),
                    };
                    Ok(ConsistentHashLB::HttpCookie { http_cookie, minimum_ring_size })
                } else if has_field(es, "useSourceIp") {
                    let use_source_ip = match req_field::<bool>(es, at, "useSourceIp") {
                        Ok(x) => x,
                        Err(e) => return Err(e),
                    };
                    let minimum_ring_size = match opt_field::<u64>(es, at, "minimumRingSize") {
                        Ok(x) => x,
                        Err(e) => return Err(e),
                    };
                    Ok(ConsistentHashLB::UseSourceIp { use_source_ip, minimum_ring_size })
                } else {
                    let http_query_parameter_name = match req_field::<String>(es, at, "httpQueryParameterName") {
                        Ok(x) => x,
                        Err(e) => return Err(e),
                    };
                    let minimum_ring_size = match opt_field::<u64>(es, at, "minimumRingSize") {
                        Ok(x) => x,
                        Err(e) => return Err(e),
                    };
                    Ok(ConsistentHashLB::HttpQueryParameterName { http_query_parameter_name, minimum_ring_size })
                }
            },
            _ => Err(type_mismatch(at, Kind::Object, w)),
        }
    }
}

impl ConsistentHashLB {
    /// The wire keys of the type, as the proofs about its entries need them.
    proof fn lemma_wire_keys()
        ensures
            "httpHeaderName"@.len() == 14,
            "minimumRingSize"@.len() == 15,
            "httpCookie"@.len() == 10,
            "useSourceIp"@.len() == 11,
            "httpQueryParameterName"@.len() == 22,
    {
        reveal_strlit("httpHeaderName");
        reveal_strlit("minimumRingSize");
        reveal_strlit("httpCookie");
        reveal_strlit("useSourceIp");
        reveal_strlit("httpQueryParameterName");
    }
}

/// Standard load balancing algorithms that require no tuning.
#[allow(non_camel_case_types)]
#[derive(Clone, Copy, Debug, PartialEq, Eq)]
pub enum SimpleLB {
    /// Round robin.
    ROUND_ROBIN,
    /// The host with fewer active requests, of two picked at random.
    LEAST_CONN,
    /// A random healthy host.
    RANDOM,
    /// The original destination address, without load balancing.
    PASSTHROUGH,
}

impl SimpleLB {
    /// The wire tag of the variant.
    pub open spec fn tag(&self) -> Seq<char> {
        match self {
            SimpleLB::ROUND_ROBIN => "ROUND_ROBIN"@,
            SimpleLB::LEAST_CONN => "LEAST_CONN"@,
            SimpleLB::RANDOM => "RANDOM"@,
            SimpleLB::PASSTHROUGH => "PASSTHROUGH"@,
        }
    }
}

impl Codec for SimpleLB {
    open spec fn wf(&self) -> bool {
        true
    }

    open spec fn enc(&self) -> Json {
        Json::Str(self.tag())
    }

    open spec fn dec(w: Json, at: Seq<char>) -> Result<Json, Failure> {
        match w {
            Json::Str(s) => if s == "ROUND_ROBIN"@ || s == "LEAST_CONN"@ || s == "RANDOM"@ || s == "PASSTHROUGH"@ {
                Ok(w)
            } else {
                Err(Failure::UnknownVariant { enum_name: "SimpleLB"@, tag: s })
            },
            _ => Err(mismatch(at, Kind::String, w)),
        }
    }

    proof fn lemma_round_trip(&self, at: Seq<char>) {
    }

    fn encode(&self) -> (r: Value) {
        let tag = match self {
            SimpleLB::ROUND_ROBIN => "ROUND_ROBIN",
            SimpleLB::LEAST_CONN => "LEAST_CONN",
            SimpleLB::RANDOM => "RANDOM",
            SimpleLB::PASSTHROUGH => "PASSTHROUGH",
        };
        Value::Str(String::from_str(tag))
    }

    fn decode(w: &Value, at: &str) -> (r: Result<SimpleLB, DecodeError>) {
        match w {
            Value::Str(s) => {
                if is_tag(s, "ROUND_ROBIN") {
                    Ok(SimpleLB::ROUND_ROBIN)
                } else if is_tag(s, "LEAST_CONN") {
                    Ok(SimpleLB::LEAST_CONN)
                } else if is_tag(s, "RANDOM") {
                    Ok(SimpleLB::RANDOM)
                } else if is_tag(s, "PASSTHROUGH") {
                    Ok(SimpleLB::PASSTHROUGH)
                } else {
                    Err(DecodeError::UnknownVariant { enum_name: String::from_str("SimpleLB"), tag: s.clone() })
                }
            },
            _ => Err(type_mismatch(at, Kind::String, w)),
        }
    }
}

} // verus!
