//! Traffic routing rules for a host.
use vstd::prelude::*;
use crate::codec::{
    Codec, opt_dec, opt_enc, opt_field, opt_wf, put_opt, put_req, req_dec, req_field,
    empty_entries, lemma_opt_field, lemma_req_field, has_key, is_tag, tag_step, add_tag, has_field,
};
use crate::error::{DecodeError, Failure, mismatch, strings, type_mismatch};
use crate::wire::{
    Json, Kind, Value, lookup, put, lemma_lookup_push, lemma_lookup_put, lemma_object_model,
};
use crate::collections::KeyMap;
use crate::duration::Duration;

verus! {

broadcast use {lemma_lookup_push, lemma_lookup_put, lemma_object_model, vstd::string::group_string_axioms};

/// The user-supplied part of a virtual service.
#[derive(Clone, Debug, PartialEq, Eq)]
pub struct VirtualServiceSpec {
    /// The destination hosts to which traffic is being sent.
    pub hosts: Option<Vec<String>>,
    /// The gateways and sidecars that apply these routes.
    pub gateways: Option<Vec<String>>,
    /// Routing rules for HTTP traffic.
    pub http: Option<Vec<HttpRoute>>,
    /// Routing rules for non-terminated TLS and HTTPS traffic.
    pub tls: Option<Vec<TlsRoute>>,
    /// Routing rules for opaque TCP traffic.
    pub tcp: Option<Vec<TcpRoute>>,
    /// Namespaces to which this virtual service is exported.
    pub export_to: Option<Vec<String>>,
}

impl Codec for VirtualServiceSpec {
    open spec fn wf(&self) -> bool {
        opt_wf(self.hosts) && opt_wf(self.gateways) && opt_wf(self.http) && opt_wf(self.tls) && opt_wf(self.tcp) && opt_wf(self.export_to)
    }

    open spec fn enc(&self) -> Json {
        let s = Seq::empty();
        let s = put(s, "hosts"@, opt_enc(self.hosts));
        let s = put(s, "gateways"@, opt_enc(self.gateways));
        let s = put(s, "http"@, opt_enc(self.http));
        let s = put(s, "tls"@, opt_enc(self.tls));
        let s = put(s, "tcp"@, opt_enc(self.tcp));
        let s = put(s, "exportTo"@, opt_enc(self.export_to));
        Json::Object(s)
    }

    open spec fn dec(w: Json, at: Seq<char>) -> Result<Json, Failure> {
        match w {
            Json::Object(es) => {
                let d_hosts = opt_dec::<Vec<String>>(es, at, "hosts"@);
                let d_gateways = opt_dec::<Vec<String>>(es, at, "gateways"@);
                let d_http = opt_dec::<Vec<HttpRoute>>(es, at, "http"@);
                let d_tls = opt_dec::<Vec<TlsRoute>>(es, at, "tls"@);
                let d_tcp = opt_dec::<Vec<TcpRoute>>(es, at, "tcp"@);
                let d_export_to = opt_dec::<Vec<String>>(es, at, "exportTo"@);
                if d_hosts is Err {
                    Err(d_hosts->Err_0)
                } else if d_gateways is Err {
                    Err(d_gateways->Err_0)
                } else if d_http is Err {
                    Err(d_http->Err_0)
                } else if d_tls is Err {
                    Err(d_tls->Err_0)
                } else if d_tcp is Err {
                    Err(d_tcp->Err_0)
                } else if d_export_to is Err {
                    Err(d_export_to->Err_0)
                } else {
                    let s = Seq::empty();
                    let s = put(s, "hosts"@, d_hosts->Ok_0);
                    let s = put(s, "gateways"@, d_gateways->Ok_0);
                    let s = put(s, "http"@, d_http->Ok_0);
                    let s = put(s, "tls"@, d_tls->Ok_0);
                    let s = put(s, "tcp"@, d_tcp->Ok_0);
                    let s = put(s, "exportTo"@, d_export_to->Ok_0);
                    Ok(Json::Object(s))
                }
            },
            _ => Err(mismatch(at, Kind::Object, w)),
        }
    }

    proof fn lemma_round_trip(&self, at: Seq<char>) {
        VirtualServiceSpec::lemma_wire_keys();
        let s = Seq::empty();
        let s = put(s, "hosts"@, opt_enc(self.hosts));
        let s = put(s, "gateways"@, opt_enc(self.gateways));
        let s = put(s, "http"@, opt_enc(self.http));
        let s = put(s, "tls"@, opt_enc(self.tls));
        let s = put(s, "tcp"@, opt_enc(self.tcp));
        let s = put(s, "exportTo"@, opt_enc(self.export_to));
        lemma_opt_field::<Vec<String>>(s, at, "hosts"@, self.hosts);
        lemma_opt_field::<Vec<String>>(s, at, "gateways"@, self.gateways);
        lemma_opt_field::<Vec<HttpRoute>>(s, at, "http"@, self.http);
        lemma_opt_field::<Vec<TlsRoute>>(s, at, "tls"@, self.tls);
        lemma_opt_field::<Vec<TcpRoute>>(s, at, "tcp"@, self.tcp);
        lemma_opt_field::<Vec<String>>(s, at, "exportTo"@, self.export_to);
    }

    fn encode(&self) -> (r: Value) {
        let mut es = empty_entries();
        put_opt(&mut es, "hosts", &self.hosts);
        put_opt(&mut es, "gateways", &self.gateways);
        put_opt(&mut es, "http", &self.http);
        put_opt(&mut es, "tls", &self.tls);
        put_opt(&mut es, "tcp", &self.tcp);
        put_opt(&mut es, "exportTo", &self.export_to);
        Value::Object(es)
    }

    fn decode(w: &Value, at: &str) -> (r: Result<VirtualServiceSpec, DecodeError>) {
        match w {
            Value::Object(es) => {
                let hosts = match opt_field::<Vec<String>>(es, at, "hosts") {
                    Ok(x) => x,
                    Err(e) => return Err(e),
                };
                let gateways = match opt_field::<Vec<String>>(es, at, "gateways") {
                    Ok(x) => x,
                    Err(e) => return Err(e),
                };
                let http = match opt_field::<Vec<HttpRoute>>(es, at, "http") {
                    Ok(x) => x,
                    Err(e) => return Err(e),
                };
                let tls = match opt_field::<Vec<TlsRoute>>(es, at, "tls") {
                    Ok(x) => x,
                    Err(e) => return Err(e),
                };
                let tcp = match opt_field::<Vec<TcpRoute>>(es, at, "tcp") {
                    Ok(x) => x,
                    Err(e) => return Err(e),
                };
                let export_to = match opt_field::<Vec<String>>(es, at, "exportTo") {
                    Ok(x) => x,
                    Err(e) => return Err(e),
                };
                Ok(VirtualServiceSpec { hosts, gateways, http, tls, tcp, export_to })
            },
            _ => Err(type_mismatch(at, Kind::Object, w)),
        }
    }
}

impl VirtualServiceSpec {
    /// The wire keys of the type, as the proofs about its entries need them.
    proof fn lemma_wire_keys()
        ensures
            "hosts"@.len() == 5,
            "gateways"@.len() == 8,
            "gateways"@[0] == 'g',
            "http"@.len() == 4,
            "tls"@.len() == 3,
            "tls"@[1] == 'l',
            "tcp"@.len() == 3,
            "tcp"@[1] == 'c',
            "exportTo"@.len() == 8,
            "exportTo"@[0] == 'e',
    {
        reveal_strlit("hosts");
        reveal_strlit("gateways");
        reveal_strlit("http");
        reveal_strlit("tls");
        reveal_strlit("tcp");
        reveal_strlit("exportTo");
    }

    /// A field that is absent leaves no key in the wire object.
    pub proof fn lemma_absent_fields_omitted(&self)
        ensures
            self.hosts is None ==> !has_key(self.enc(), "hosts"@),
            self.gateways is None ==> !has_key(self.enc(), "gateways"@),
            self.http is None ==> !has_key(self.enc(), "http"@),
            self.tls is None ==> !has_key(self.enc(), "tls"@),
            self.tcp is None ==> !has_key(self.enc(), "tcp"@),
            self.export_to is None ==> !has_key(self.enc(), "exportTo"@),
    {
        VirtualServiceSpec::lemma_wire_keys();
    }
}

/// A network addressable service to which requests or connections are sent.
#[derive(Clone, Debug, PartialEq, Eq)]
pub struct Destination {
    /// Name of a service from the service registry.
    pub host: String,
    /// Name of a subset within the service.
    pub subset: Option<String>,
    /// The port on the host that is being addressed.
    pub port: Option<PortSelector>,
}

impl Codec for Destination {
    open spec fn wf(&self) -> bool {
        opt_wf(self.port)
    }

    open spec fn enc(&self) -> Json {
        let s = Seq::empty();
        let s = s.push(("host"@, self.host.enc()));
        let s = put(s, "subset"@, opt_enc(self.subset));
        let s = put(s, "port"@, opt_enc(self.port));
        Json::Object(s)
    }

    open spec fn dec(w: Json, at: Seq<char>) -> Result<Json, Failure> {
        match w {
            Json::Object(es) => {
                let d_host = req_dec::<String>(es, at, "host"@);
                let d_subset = opt_dec::<String>(es, at, "subset"@);
                let d_port = opt_dec::<PortSelector>(es, at, "port"@);
                if d_host is Err {
                    Err(d_host->Err_0)
                } else if d_subset is Err {
                    Err(d_subset->Err_0)
                } else if d_port is Err {
                    Err(d_port->Err_0)
                } else {
                    let s = Seq::empty();
                    let s = s.push(("host"@, d_host->Ok_0));
                    let s = put(s, "subset"@, d_subset->Ok_0);
                    let s = put(s, "port"@, d_port->Ok_0);
                    Ok(Json::Object(s))
                }
            },
            _ => Err(mismatch(at, Kind::Object, w)),
        }
    }

    proof fn lemma_round_trip(&self, at: Seq<char>) {
        Destination::lemma_wire_keys();
        let s = Seq::empty();
        let s = s.push(("host"@, self.host.enc()));
        let s = put(s, "subset"@, opt_enc(self.subset));
        let s = put(s, "port"@, opt_enc(self.port));
        lemma_req_field::<String>(s, at, "host"@, self.host);
        lemma_opt_field::<String>(s, at, "subset"@, self.subset);
        lemma_opt_field::<PortSelector>(s, at, "port"@, self.port);
    }

    fn encode(&self) -> (r: Value) {
        let mut es = empty_entries();
        put_req(&mut es, "host", self.host.encode());
        put_opt(&mut es, "subset", &self.subset);
        put_opt(&mut es, "port", &self.port);
        Value::Object(es)
    }

    fn decode(w: &Value, at: &str) -> (r: Result<Destination, DecodeError>) {
        match w {
            Value::Object(es) => {
                let host = match req_field::<String>(es, at, "host") {
                    Ok(x) => x,
                    Err(e) => return Err(e),
                };
                let subset = match opt_field::<String>(es, at, "subset") {
                    Ok(x) => x,
                    Err(e) => return Err(e),
                };
                let port = match opt_field::<PortSelector>(es, at, "port") {
                    Ok(x) => x,
                    Err(e) => return Err(e),
                };
                Ok(Destination { host, subset, port })
            },
            _ => Err(type_mismatch(at, Kind::Object, w)),
        }
    }
}

impl Destination {
    /// The wire keys of the type, as the proofs about its entries need them.
    proof fn lemma_wire_keys()
        ensures
            "host"@.len() == 4,
            "host"@[0] == 'h',
            "subset"@.len() == 6,
            "port"@.len() == 4,
            "port"@[0] == 'p',
    {
        reveal_strlit("host");
        reveal_strlit("subset");
        reveal_strlit("port");
    }

    /// A field that is absent leaves no key in the wire object.
    pub proof fn lemma_absent_fields_omitted(&self)
        ensures
            self.subset is None ==> !has_key(self.enc(), "subset"@),
            self.port is None ==> !has_key(self.enc(), "port"@),
    {
        Destination::lemma_wire_keys();
    }
}

/// A virtual service to which a route is delegated.
#[derive(Clone, Debug, PartialEq, Eq)]
pub struct Delegate {
    /// Name of the delegate virtual service.
    pub name: Option<String>,
    /// Namespace of the delegate virtual service.
    pub namespace: Option<String>,
}

impl Codec for Delegate {
    open spec fn wf(&self) -> bool {
        true
    }

    open spec fn enc(&self) -> Json {
        let s = Seq::empty();
        let s = put(s, "name"@, opt_enc(self.name));
        let s = put(s, "namespace"@, opt_enc(self.namespace));
        Json::Object(s)
    }

    open spec fn dec(w: Json, at: Seq<char>) -> Result<Json, Failure> {
        match w {
            Json::Object(es) => {
                let d_name = opt_dec::<String>(es, at, "name"@);
                let d_namespace = opt_dec::<String>(es, at, "namespace"@);
                if d_name is Err {
                    Err(d_name->Err_0)
                } else if d_namespace is Err {
                    Err(d_namespace->Err_0)
                } else {
                    let s = Seq::empty();
                    let s = put(s, "name"@, d_name->Ok_0);
                    let s = put(s, "namespace"@, d_namespace->Ok_0);
                    Ok(Json::Object(s))
                }
            },
            _ => Err(mismatch(at, Kind::Object, w)),
        }
    }

    proof fn lemma_round_trip(&self, at: Seq<char>) {
        Delegate::lemma_wire_keys();
        let s = Seq::empty();
        let s = put(s, "name"@, opt_enc(self.name));
        let s = put(s, "namespace"@, opt_enc(self.namespace));
        lemma_opt_field::<String>(s, at, "name"@, self.name);
        lemma_opt_field::<String>(s, at, "namespace"@, self.namespace);
    }

    fn encode(&self) -> (r: Value) {
        let mut es = empty_entries();
        put_opt(&mut es, "name", &self.name);
        put_opt(&mut es, "namespace", &self.namespace);
        Value::Object(es)
    }

    fn decode(w: &Value, at: &str) -> (r: Result<Delegate, DecodeError>) {
        match w {
            Value::Object(es) => {
                let name = match opt_field::<String>(es, at, "name") {
                    Ok(x) => x,
                    Err(e) => return Err(e),
                };
                let namespace = match opt_field::<String>(es, at, "namespace") {
                    Ok(x) => x,
                    Err(e) => return Err(e),
                };
                Ok(Delegate { name, namespace })
            },
            _ => Err(type_mismatch(at, Kind::Object, w)),
        }
    }
}

impl Delegate {
    /// The wire keys of the type, as the proofs about its entries need them.
    proof fn lemma_wire_keys()
        ensures
            "name"@.len() == 4,
            "namespace"@.len() == 9,
    {
        reveal_strlit("name");
        reveal_strlit("namespace");
    }

    /// A field that is absent leaves no key in the wire object.
    pub proof fn lemma_absent_fields_omitted(&self)
        ensures
            self.name is None ==> !has_key(self.enc(), "name"@),
            self.namespace is None ==> !has_key(self.enc(), "namespace"@),
    {
        Delegate::lemma_wire_keys();
    }
}

/// Header manipulation rules.
#[derive(Clone, Debug, PartialEq, Eq)]
pub struct Headers {
    /// Operations on the request headers.
    pub request: Option<HeaderOperations>,
    /// Operations on the response headers.
    pub response: Option<HeaderOperations>,
}

impl Codec for Headers {
    open spec fn wf(&self) -> bool {
        opt_wf(self.request) && opt_wf(self.response)
    }

    open spec fn enc(&self) -> Json {
        let s = Seq::empty();
        let s = put(s, "request"@, opt_enc(self.request));
        let s = put(s, "response"@, opt_enc(self.response));
        Json::Object(s)
    }

    open spec fn dec(w: Json, at: Seq<char>) -> Result<Json, Failure> {
        match w {
            Json::Object(es) => {
                let d_request = opt_dec::<HeaderOperations>(es, at, "request"@);
                let d_response = opt_dec::<HeaderOperations>(es, at, "response"@);
                if d_request is Err {
                    Err(d_request->Err_0)
                } else if d_response is Err {
                    Err(d_response->Err_0)
                } else {
                    let s = Seq::empty();
                    let s = put(s, "request"@, d_request->Ok_0);
                    let s = put(s, "response"@, d_response->Ok_0);
                    Ok(Json::Object(s))
                }
            },
            _ => Err(mismatch(at, Kind::Object, w)),
        }
    }

    proof fn lemma_round_trip(&self, at: Seq<char>) {
        Headers::lemma_wire_keys();
        let s = Seq::empty();
        let s = put(s, "request"@, opt_enc(self.request));
        let s = put(s, "response"@, opt_enc(self.response));
        lemma_opt_field::<HeaderOperations>(s, at, "request"@, self.request);
        lemma_opt_field::<HeaderOperations>(s, at, "response"@, self.response);
    }

    fn encode(&self) -> (r: Value) {
        let mut es = empty_entries();
        put_opt(&mut es, "request", &self.request);
        put_opt(&mut es, "response", &self.response);
        Value::Object(es)
    }

    fn decode(w: &Value, at: &str) -> (r: Result<Headers, DecodeError>) {
        match w {
            Value::Object(es) => {
                let request = match opt_field::<HeaderOperations>(es, at, "request") {
                    Ok(x) => x,
                    Err(e) => return Err(e),
                };
                let response = match opt_field::<HeaderOperations>(es, at, "response") {
                    Ok(x) => x,
                    Err(e) => return Err(e),
                };
                Ok(Headers { request, response })
            },
            _ => Err(type_mismatch(at, Kind::Object, w)),
        }
    }
}

impl Headers {
    /// The wire keys of the type, as the proofs about its entries need them.
    proof fn lemma_wire_keys()
        ensures
            "request"@.len() == 7,
            "response"@.len() == 8,
    {
        reveal_strlit("request");
        reveal_strlit("response");
    }

    /// A field that is absent leaves no key in the wire object.
    pub proof fn lemma_absent_fields_omitted(&self)
        ensures
            self.request is None ==> !has_key(self.enc(), "request"@),
            self.response is None ==> !has_key(self.enc(), "response"@),
    {
        Headers::lemma_wire_keys();
    }
}

/// A route for non-terminated TLS and HTTPS traffic.
#[derive(Clone, Debug, PartialEq, Eq)]
pub struct TlsRoute {
    /// Conditions that must hold for the rule to apply.
    pub match_: Vec<TlsMatchAttribures>,
    /// Where matching connections are forwarded to.
    pub route: Option<Vec<RouteDestination>>,
}

impl Codec for TlsRoute {
    open spec fn wf(&self) -> bool {
        self.match_.wf() && opt_wf(self.route)
    }

    open spec fn enc(&self) -> Json {
        let s = Seq::empty();
        let s = s.push(("match"@, self.match_.enc()));
        let s = put(s, "route"@, opt_enc(self.route));
        Json::Object(s)
    }

    open spec fn dec(w: Json, at: Seq<char>) -> Result<Json, Failure> {
        match w {
            Json::Object(es) => {
                let d_match_ = req_dec::<Vec<TlsMatchAttribures>>(es, at, "match"@);
                let d_route = opt_dec::<Vec<RouteDestination>>(es, at, "route"@);
                if d_match_ is Err {
                    Err(d_match_->Err_0)
                } else if d_route is Err {
                    Err(d_route->Err_0)
                } else {
                    let s = Seq::empty();
                    let s = s.push(("match"@, d_match_->Ok_0));
                    let s = put(s, "route"@, d_route->Ok_0);
                    Ok(Json::Object(s))
                }
            },
            _ => Err(mismatch(at, Kind::Object, w)),
        }
    }

    proof fn lemma_round_trip(&self, at: Seq<char>) {
        TlsRoute::lemma_wire_keys();
        let s = Seq::empty();
        let s = s.push(("match"@, self.match_.enc()));
        let s = put(s, "route"@, opt_enc(self.route));
        lemma_req_field::<Vec<TlsMatchAttribures>>(s, at, "match"@, self.match_);
        lemma_opt_field::<Vec<RouteDestination>>(s, at, "route"@, self.route);
    }

    fn encode(&self) -> (r: Value) {
        let mut es = empty_entries();
        put_req(&mut es, "match", self.match_.encode());
        put_opt(&mut es, "route", &self.route);
        Value::Object(es)
    }

    fn decode(w: &Value, at: &str) -> (r: Result<TlsRoute, DecodeError>) {
        match w {
            Value::Object(es) => {
                let match_ = match req_field::<Vec<TlsMatchAttribures>>(es, at, "match") {
                    Ok(x) => x,
                    Err(e) => return Err(e),
                };
                let route = match opt_field::<Vec<RouteDestination>>(es, at, "route") {
                    Ok(x) => x,
                    Err(e) => return Err(e),
                };
                Ok(TlsRoute { match_, route })
            },
            _ => Err(type_mismatch(at, Kind::Object, w)),
        }
    }
}

impl TlsRoute {
    /// The wire keys of the type, as the proofs about its entries need them.
    proof fn lemma_wire_keys()
        ensures
            "match"@.len() == 5,
            "match"@[0] == 'm',
            "route"@.len() == 5,
            "route"@[0] == 'r',
    {
        reveal_strlit("match");
        reveal_strlit("route");
    }

    /// A field that is absent leaves no key in the wire object.
    pub proof fn lemma_absent_fields_omitted(&self)
        ensures
            self.route is None ==> !has_key(self.enc(), "route"@),
    {
        TlsRoute::lemma_wire_keys();
    }
}

/// A route for opaque TCP traffic.
#[derive(Clone, Debug, PartialEq, Eq)]
pub struct TcpRoute {
    /// Conditions that must hold for the rule to apply.
    pub match_: Option<Vec<L4MatchAttributes>>,
    /// Where matching connections are forwarded to.
    pub route: Option<Vec<RouteDestination>>,
}

impl Codec for TcpRoute {
    open spec fn wf(&self) -> bool {
        opt_wf(self.match_) && opt_wf(self.route)
    }

    open spec fn enc(&self) -> Json {
        let s = Seq::empty();
        let s = put(s, "match"@, opt_enc(self.match_));
        let s = put(s, "route"@, opt_enc(self.route));
        Json::Object(s)
    }

    open spec fn dec(w: Json, at: Seq<char>) -> Result<Json, Failure> {
        match w {
            Json::Object(es) => {
                let d_match_ = opt_dec::<Vec<L4MatchAttributes>>(es, at, "match"@);
                let d_route = opt_dec::<Vec<RouteDestination>>(es, at, "route"@);
                if d_match_ is Err {
                    Err(d_match_->Err_0)
                } else if d_route is Err {
                    Err(d_route->Err_0)
                } else {
                    let s = Seq::empty();
                    let s = put(s, "match"@, d_match_->Ok_0);
                    let s = put(s, "route"@, d_route->Ok_0);
                    Ok(Json::Object(s))
                }
            },
            _ => Err(mismatch(at, Kind::Object, w)),
        }
    }

    proof fn lemma_round_trip(&self, at: Seq<char>) {
        TcpRoute::lemma_wire_keys();
        let s = Seq::empty();
        let s = put(s, "match"@, opt_enc(self.match_));
        let s = put(s, "route"@, opt_enc(self.route));
        lemma_opt_field::<Vec<L4MatchAttributes>>(s, at, "match"@, self.match_);
        lemma_opt_field::<Vec<RouteDestination>>(s, at, "route"@, self.route);
    }

    fn encode(&self) -> (r: Value) {
        let mut es = empty_entries();
        put_opt(&mut es, "match", &self.match_);
        put_opt(&mut es, "route", &self.route);
        Value::Object(es)
    }

    fn decode(w: &Value, at: &str) -> (r: Result<TcpRoute, DecodeError>) {
        match w {
            Value::Object(es) => {
                let match_ = match opt_field::<Vec<L4MatchAttributes>>(es, at, "match") {
                    Ok(x) => x,
                    Err(e) => return Err(e),
                };
                let route = match opt_field::<Vec<RouteDestination>>(es, at, "route") {
                    Ok(x) => x,
                    Err(e) => return Err(e),
                };
                Ok(TcpRoute { match_, route })
            },
            _ => Err(type_mismatch(at, Kind::Object, w)),
        }
    }
}

impl TcpRoute {
    /// The wire keys of the type, as the proofs about its entries need them.
    proof fn lemma_wire_keys()
        ensures
            "match"@.len() == 5,
            "match"@[0] == 'm',
            "route"@.len() == 5,
            "route"@[0] == 'r',
    {
        reveal_strlit("match");
        reveal_strlit("route");
    }

    /// A field that is absent leaves no key in the wire object.
    pub proof fn lemma_absent_fields_omitted(&self)
        ensures
            self.match_ is None ==> !has_key(self.enc(), "match"@),
            self.route is None ==> !has_key(self.enc(), "route"@),
    {
        TcpRoute::lemma_wire_keys();
    }
}

/// Conditions and actions for routing HTTP traffic.
#[derive(Clone, Debug, PartialEq, Eq)]
pub struct HttpRoute {
    /// Name of the route, for debugging.
    pub name: Option<String>,
    /// Conditions that must hold for the rule to apply.
    pub match_: Option<Vec<HttpMatchRequest>>,
    /// Where matching requests are forwarded to.
    pub route: Option<Vec<HttpRouteDestination>>,
    /// Redirect sent back to the client.
    pub redirect: Option<HttpRedirect>,
    /// Virtual service to which the route is delegated.
    pub delegate: Option<Delegate>,
    /// Rewrite of the request before forwarding.
    pub rewrite: Option<HttpRewrite>,
    /// Timeout of requests.
    pub timeout: Option<Duration>,
    /// Retry policy of requests.
    pub retries: Option<HttpRetry>,
    /// Faults injected into the traffic.
    pub fault: Option<HttpFaultInjection>,
    /// Destination to which requests are mirrored.
    pub mirror: Option<Destination>,
    /// Share of the traffic that is mirrored.
    pub mirror_percentage: Option<Percent>,
    /// Cross-origin resource sharing policy.
    pub cors_policy: Option<CorsPolicy>,
    /// Header manipulation rules.
    pub headers: Option<Headers>,
    /// Percentage of the traffic that is mirrored, as an integer.
    pub mirror_percent: Option<i32>,
}

impl Codec for HttpRoute {
    open spec fn wf(&self) -> bool {
        opt_wf(self.match_) && opt_wf(self.route) && opt_wf(self.redirect) && opt_wf(self.delegate) && opt_wf(self.rewrite) && opt_wf(self.retries) && opt_wf(self.fault) && opt_wf(self.mirror) && opt_wf(self.cors_policy) && opt_wf(self.headers)
    }

    open spec fn enc(&self) -> Json {
        let s = Seq::empty();
        let s = put(s, "name"@, opt_enc(self.name));
        let s = put(s, "match"@, opt_enc(self.match_));
        let s = put(s, "route"@, opt_enc(self.route));
        let s = put(s, "redirect"@, opt_enc(self.redirect));
        let s = put(s, "delegate"@, opt_enc(self.delegate));
        let s = put(s, "rewrite"@, opt_enc(self.rewrite));
        let s = put(s, "timeout"@, opt_enc(self.timeout));
        let s = put(s, "retries"@, opt_enc(self.retries));
        let s = put(s, "fault"@, opt_enc(self.fault));
        let s = put(s, "mirror"@, opt_enc(self.mirror));
        let s = put(s, "mirrorPercentage"@, opt_enc(self.mirror_percentage));
        let s = put(s, "corsPolicy"@, opt_enc(self.cors_policy));
        let s = put(s, "headers"@, opt_enc(self.headers));
        let s = put(s, "mirrorPercent"@, opt_enc(self.mirror_percent));
        Json::Object(s)
    }

    open spec fn dec(w: Json, at: Seq<char>) -> Result<Json, Failure> {
        match w {
            Json::Object(es) => {
                let d_name = opt_dec::<String>(es, at, "name"@);
                let d_match_ = opt_dec::<Vec<HttpMatchRequest>>(es, at, "match"@);
                let d_route = opt_dec::<Vec<HttpRouteDestination>>(es, at, "route"@);
                let d_redirect = opt_dec::<HttpRedirect>(es, at, "redirect"@);
                let d_delegate = opt_dec::<Delegate>(es, at, "delegate"@);
                let d_rewrite = opt_dec::<HttpRewrite>(es, at, "rewrite"@);
                let d_timeout = opt_dec::<Duration>(es, at, "timeout"@);
                let d_retries = opt_dec::<HttpRetry>(es, at, "retries"@);
                let d_fault = opt_dec::<HttpFaultInjection>(es, at, "fault"@);
                let d_mirror = opt_dec::<Destination>(es, at, "mirror"@);
                let d_mirror_percentage = opt_dec::<Percent>(es, at, "mirrorPercentage"@);
                let d_cors_policy = opt_dec::<CorsPolicy>(es, at, "corsPolicy"@);
                let d_headers = opt_dec::<Headers>(es, at, "headers"@);
                let d_mirror_percent = opt_dec::<i32>(es, at, "mirrorPercent"@);
                if d_name is Err {
                    Err(d_name->Err_0)
                } else if d_match_ is Err {
                    Err(d_match_->Err_0)
                } else if d_route is Err {
                    Err(d_route->Err_0)
                } else if d_redirect is Err {
                    Err(d_redirect->Err_0)
                } else if d_delegate is Err {
                    Err(d_delegate->Err_0)
                } else if d_rewrite is Err {
                    Err(d_rewrite->Err_0)
                } else if d_timeout is Err {
                    Err(d_timeout->Err_0)
                } else if d_retries is Err {
                    Err(d_retries->Err_0)
                } else if d_fault is Err {
                    Err(d_fault->Err_0)
                } else if d_mirror is Err {
                    Err(d_mirror->Err_0)
                } else if d_mirror_percentage is Err {
                    Err(d_mirror_percentage->Err_0)
                } else if d_cors_policy is Err {
                    Err(d_cors_policy->Err_0)
                } else if d_headers is Err {
                    Err(d_headers->Err_0)
                } else if d_mirror_percent is Err {
                    Err(d_mirror_percent->Err_0)
                } else {
                    let s = Seq::empty();
                    let s = put(s, "name"@, d_name->Ok_0);
                    let s = put(s, "match"@, d_match_->Ok_0);
                    let s = put(s, "route"@, d_route->Ok_0);
                    let s = put(s, "redirect"@, d_redirect->Ok_0);
                    let s = put(s, "delegate"@, d_delegate->Ok_0);
                    let s = put(s, "rewrite"@, d_rewrite->Ok_0);
                    let s = put(s, "timeout"@, d_timeout->Ok_0);
                    let s = put(s, "retries"@, d_retries->Ok_0);
                    let s = put(s, "fault"@, d_fault->Ok_0);
                    let s = put(s, "mirror"@, d_mirror->Ok_0);
                    let s = put(s, "mirrorPercentage"@, d_mirror_percentage->Ok_0);
                    let s = put(s, "corsPolicy"@, d_cors_policy->Ok_0);
                    let s = put(s, "headers"@, d_headers->Ok_0);
                    let s = put(s, "mirrorPercent"@, d_mirror_percent->Ok_0);
                    Ok(Json::Object(s))
                }
            },
            _ => Err(mismatch(at, Kind::Object, w)),
        }
    }

    #[verifier::rlimit(60)]
    proof fn lemma_round_trip(&self, at: Seq<char>) {
        HttpRoute::lemma_wire_keys();
        let s = Seq::empty();
        let s = put(s, "name"@, opt_enc(self.name));
        let s = put(s, "match"@, opt_enc(self.match_));
        let s = put(s, "route"@, opt_enc(self.route));
        let s = put(s, "redirect"@, opt_enc(self.redirect));
        let s = put(s, "delegate"@, opt_enc(self.delegate));
        let s = put(s, "rewrite"@, opt_enc(self.rewrite));
        let s = put(s, "timeout"@, opt_enc(self.timeout));
        let s = put(s, "retries"@, opt_enc(self.retries));
        let s = put(s, "fault"@, opt_enc(self.fault));
        let s = put(s, "mirror"@, opt_enc(self.mirror));
        let s = put(s, "mirrorPercentage"@, opt_enc(self.mirror_percentage));
        let s = put(s, "corsPolicy"@, opt_enc(self.cors_policy));
        let s = put(s, "headers"@, opt_enc(self.headers));
        let s = put(s, "mirrorPercent"@, opt_enc(self.mirror_percent));
        lemma_opt_field::<String>(s, at, "name"@, self.name);
        lemma_opt_field::<Vec<HttpMatchRequest>>(s, at, "match"@, self.match_);
        lemma_opt_field::<Vec<HttpRouteDestination>>(s, at, "route"@, self.route);
        lemma_opt_field::<HttpRedirect>(s, at, "redirect"@, self.redirect);
        lemma_opt_field::<Delegate>(s, at, "delegate"@, self.delegate);
        lemma_opt_field::<HttpRewrite>(s, at, "rewrite"@, self.rewrite);
        lemma_opt_field::<Duration>(s, at, "timeout"@, self.timeout);
        lemma_opt_field::<HttpRetry>(s, at, "retries"@, self.retries);
        lemma_opt_field::<HttpFaultInjection>(s, at, "fault"@, self.fault);
        lemma_opt_field::<Destination>(s, at, "mirror"@, self.mirror);
        lemma_opt_field::<Percent>(s, at, "mirrorPercentage"@, self.mirror_percentage);
        lemma_opt_field::<CorsPolicy>(s, at, "corsPolicy"@, self.cors_policy);
        lemma_opt_field::<Headers>(s, at, "headers"@, self.headers);
        lemma_opt_field::<i32>(s, at, "mirrorPercent"@, self.mirror_percent);
    }

    fn encode(&self) -> (r: Value) {
        let mut es = empty_entries();
        put_opt(&mut es, "name", &self.name);
        put_opt(&mut es, "match", &self.match_);
        put_opt(&mut es, "route", &self.route);
        put_opt(&mut es, "redirect", &self.redirect);
        put_opt(&mut es, "delegate", &self.delegate);
        put_opt(&mut es, "rewrite", &self.rewrite);
        put_opt(&mut es, "timeout", &self.timeout);
        put_opt(&mut es, "retries", &self.retries);
        put_opt(&mut es, "fault", &self.fault);
        put_opt(&mut es, "mirror", &self.mirror);
        put_opt(&mut es, "mirrorPercentage", &self.mirror_percentage);
        put_opt(&mut es, "corsPolicy", &self.cors_policy);
        put_opt(&mut es, "headers", &self.headers);
        put_opt(&mut es, "mirrorPercent", &self.mirror_percent);
        Value::Object(es)
    }

    fn decode(w: &Value, at: &str) -> (r: Result<HttpRoute, DecodeError>) {
        match w {
            Value::Object(es) => {
                let name = match opt_field::<String>(es, at, "name") {
                    Ok(x) => x,
                    Err(e) => return Err(e),
                };
                let match_ = match opt_field::<Vec<HttpMatchRequest>>(es, at, "match") {
                    Ok(x) => x,
                    Err(e) => return Err(e),
                };
                let route = match opt_field::<Vec<HttpRouteDestination>>(es, at, "route") {
                    Ok(x) => x,
                    Err(e) => return Err(e),
                };
                let redirect = match opt_field::<HttpRedirect>(es, at, "redirect") {
                    Ok(x) => x,
                    Err(e) => return Err(e),
                };
                let delegate = match opt_field::<Delegate>(es, at, "delegate") {
                    Ok(x) => x,
                    Err(e) => return Err(e),
                };
                let rewrite = match opt_field::<HttpRewrite>(es, at, "rewrite") {
                    Ok(x) => x,
                    Err(e) => return Err(e),
                };
                let timeout = match opt_field::<Duration>(es, at, "timeout") {
                    Ok(x) => x,
                    Err(e) => return Err(e),
                };
                let retries = match opt_field::<HttpRetry>(es, at, "retries") {
                    Ok(x) => x,
                    Err(e) => return Err(e),
                };
                let fault = match opt_field::<HttpFaultInjection>(es, at, "fault") {
                    Ok(x) => x,
                    Err(e) => return Err(e),
                };
                let mirror = match opt_field::<Destination>(es, at, "mirror") {
                    Ok(x) => x,
                    Err(e) => return Err(e),
                };
                let mirror_percentage = match opt_field::<Percent>(es, at, "mirrorPercentage") {
                    Ok(x) => x,
                    Err(e) => return Err(e),
                };
                let cors_policy = match opt_field::<CorsPolicy>(es, at, "corsPolicy") {
                    Ok(x) => x,
                    Err(e) => return Err(e),
                };
                let headers = match opt_field::<Headers>(es, at, "headers") {
                    Ok(x) => x,
                    Err(e) => return Err(e),
                };
                let mirror_percent = match opt_field::<i32>(es, at, "mirrorPercent") {
                    Ok(x) => x,
                    Err(e) => return Err(e),
                };
                Ok(HttpRoute { name, match_, route, redirect, delegate, rewrite, timeout, retries, fault, mirror, mirror_percentage, cors_policy, headers, mirror_percent })
            },
            _ => Err(type_mismatch(at, Kind::Object, w)),
        }
    }
}

impl HttpRoute {
    /// The wire keys of the type, as the proofs about its entries need them.
    proof fn lemma_wire_keys()
        ensures
            "name"@.len() == 4,
            "match"@.len() == 5,
            "match"@[0] == 'm',
            "route"@.len() == 5,
            "route"@[0] == 'r',
            "redirect"@.len() == 8,
            "redirect"@[0] == 'r',
            "delegate"@.len() == 8,
            "delegate"@[0] == 'd',
            "rewrite"@.len() == 7,
            "rewrite"@[0] == 'r',
            "rewrite"@[2] == 'w',
            "timeout"@.len() == 7,
            "timeout"@[0] == 't',
            "retries"@.len() == 7,
            "retries"@[0] == 'r',
            "retries"@[2] == 't',
            "fault"@.len() == 5,
            "fault"@[0] == 'f',
            "mirror"@.len() == 6,
            "mirrorPercentage"@.len() == 16,
            "corsPolicy"@.len() == 10,
            "headers"@.len() == 7,
            "headers"@[0] == 'h',
            "mirrorPercent"@.len() == 13,
    {
        reveal_strlit("name");
        reveal_strlit("match");
        reveal_strlit("route");
        reveal_strlit("redirect");
        reveal_strlit("delegate");
        reveal_strlit("rewrite");
        reveal_strlit("timeout");
        reveal_strlit("retries");
        reveal_strlit("fault");
        reveal_strlit("mirror");
        reveal_strlit("mirrorPercentage");
        reveal_strlit("corsPolicy");
        reveal_strlit("headers");
        reveal_strlit("mirrorPercent");
    }

    /// A field that is absent leaves no key in the wire object.
    pub proof fn lemma_absent_fields_omitted(&self)
        ensures
            self.name is None ==> !has_key(self.enc(), "name"@),
            self.match_ is None ==> !has_key(self.enc(), "match"@),
            self.route is None ==> !has_key(self.enc(), "route"@),
            self.redirect is None ==> !has_key(self.enc(), "redirect"@),
            self.delegate is None ==> !has_key(self.enc(), "delegate"@),
            self.rewrite is None ==> !has_key(self.enc(), "rewrite"@),
            self.timeout is None ==> !has_key(self.enc(), "timeout"@),
            self.retries is None ==> !has_key(self.enc(), "retries"@),
            self.fault is None ==> !has_key(self.enc(), "fault"@),
            self.mirror is None ==> !has_key(self.enc(), "mirror"@),
            self.mirror_percentage is None ==> !has_key(self.enc(), "mirrorPercentage"@),
            self.cors_policy is None ==> !has_key(self.enc(), "corsPolicy"@),
            self.headers is None ==> !has_key(self.enc(), "headers"@),
            self.mirror_percent is None ==> !has_key(self.enc(), "mirrorPercent"@),
    {
        HttpRoute::lemma_wire_keys();
    }
}

/// Conditions that an HTTP request must meet for a rule to apply.
#[derive(Clone, Debug, PartialEq, Eq)]
pub struct HttpMatchRequest {
    /// Name of the match.
    pub name: Option<String>,
    /// Condition on the URI.
    pub uri: Option<StringMatch>,
    /// Condition on the URI scheme.
    pub scheme: Option<StringMatch>,
    /// Condition on the HTTP method.
    pub method: Option<StringMatch>,
    /// Condition on the HTTP authority.
    pub authority: Option<StringMatch>,
    /// Conditions on the request headers.
    pub headers: Option<KeyMap<StringMatch>>,
    /// The port being addressed.
    pub port: Option<i32>,
    /// Labels of the source workloads.
    pub source_labels: Option<KeyMap<String>>,
    /// Names of the gateways where the rule applies.
    pub gateways: Option<Vec<String>>,
    /// Conditions on the query parameters.
    pub query_params: Option<KeyMap<StringMatch>>,
    /// Whether the URI is matched without regard to case.
    pub ignore_uri_case: Option<bool>,
    /// Conditions on headers that must not match.
    pub without_headers: Option<KeyMap<StringMatch>>,
    /// Namespace of the source workloads.
    pub source_namespace: Option<String>,
}

impl Codec for HttpMatchRequest {
    open spec fn wf(&self) -> bool {
        opt_wf(self.uri) && opt_wf(self.scheme) && opt_wf(self.method) && opt_wf(self.authority) && opt_wf(self.headers) && opt_wf(self.source_labels) && opt_wf(self.gateways) && opt_wf(self.query_params) && opt_wf(self.without_headers)
    }

    open spec fn enc(&self) -> Json {
        let s = Seq::empty();
        let s = put(s, "name"@, opt_enc(self.name));
        let s = put(s, "uri"@, opt_enc(self.uri));
        let s = put(s, "scheme"@, opt_enc(self.scheme));
        let s = put(s, "method"@, opt_enc(self.method));
        let s = put(s, "authority"@, opt_enc(self.authority));
        let s = put(s, "headers"@, opt_enc(self.headers));
        let s = put(s, "port"@, opt_enc(self.port));
        let s = put(s, "sourceLabels"@, opt_enc(self.source_labels));
        let s = put(s, "gateways"@, opt_enc(self.gateways));
        let s = put(s, "queryParams"@, opt_enc(self.query_params));
        let s = put(s, "ignoreUriCase"@, opt_enc(self.ignore_uri_case));
        let s = put(s, "withoutHeaders"@, opt_enc(self.without_headers));
        let s = put(s, "sourceNamespace"@, opt_enc(self.source_namespace));
        Json::Object(s)
    }

    open spec fn dec(w: Json, at: Seq<char>) -> Result<Json, Failure> {
        match w {
            Json::Object(es) => {
                let d_name = opt_dec::<String>(es, at, "name"@);
                let d_uri = opt_dec::<StringMatch>(es, at, "uri"@);
                let d_scheme = opt_dec::<StringMatch>(es, at, "scheme"@);
                let d_method = opt_dec::<StringMatch>(es, at, "method"@);
                let d_authority = opt_dec::<StringMatch>(es, at, "authority"@);
                let d_headers = opt_dec::<KeyMap<StringMatch>>(es, at, "headers"@);
                let d_port = opt_dec::<i32>(es, at, "port"@);
                let d_source_labels = opt_dec::<KeyMap<String>>(es, at, "sourceLabels"@);
                let d_gateways = opt_dec::<Vec<String>>(es, at, "gateways"@);
                let d_query_params = opt_dec::<KeyMap<StringMatch>>(es, at, "queryParams"@);
                let d_ignore_uri_case = opt_dec::<bool>(es, at, "ignoreUriCase"@);
                let d_without_headers = opt_dec::<KeyMap<StringMatch>>(es, at, "withoutHeaders"@);
                let d_source_namespace = opt_dec::<String>(es, at, "sourceNamespace"@);
                if d_name is Err {
                    Err(d_name->Err_0)
                } else if d_uri is Err {
                    Err(d_uri->Err_0)
                } else if d_scheme is Err {
                    Err(d_scheme->Err_0)
                } else if d_method is Err {
                    Err(d_method->Err_0)
                } else if d_authority is Err {
                    Err(d_authority->Err_0)
                } else if d_headers is Err {
                    Err(d_headers->Err_0)
                } else if d_port is Err {
                    Err(d_port->Err_0)
                } else if d_source_labels is Err {
                    Err(d_source_labels->Err_0)
                } else if d_gateways is Err {
                    Err(d_gateways->Err_0)
                } else if d_query_params is Err {
                    Err(d_query_params->Err_0)
                } else if d_ignore_uri_case is Err {
                    Err(d_ignore_uri_case->Err_0)
                } else if d_without_headers is Err {
                    Err(d_without_headers->Err_0)
                } else if d_source_namespace is Err {
                    Err(d_source_namespace->Err_0)
                } else {
                    let s = Seq::empty();
                    let s = put(s, "name"@, d_name->Ok_0);
                    let s = put(s, "uri"@, d_uri->Ok_0);
                    let s = put(s, "scheme"@, d_scheme->Ok_0);
                    let s = put(s, "method"@, d_method->Ok_0);
                    let s = put(s, "authority"@, d_authority->Ok_0);
                    let s = put(s, "headers"@, d_headers->Ok_0);
                    let s = put(s, "port"@, d_port->Ok_0);
                    let s = put(s, "sourceLabels"@, d_source_labels->Ok_0);
                    let s = put(s, "gateways"@, d_gateways->Ok_0);
                    let s = put(s, "queryParams"@, d_query_params->Ok_0);
                    let s = put(s, "ignoreUriCase"@, d_ignore_uri_case->Ok_0);
                    let s = put(s, "withoutHeaders"@, d_without_headers->Ok_0);
                    let s = put(s, "sourceNamespace"@, d_source_namespace->Ok_0);
                    Ok(Json::Object(s))
                }
            },
            _ => Err(mismatch(at, Kind::Object, w)),
        }
    }

    #[verifier::rlimit(60)]
    proof fn lemma_round_trip(&self, at: Seq<char>) {
        HttpMatchRequest::lemma_wire_keys();
        let s = Seq::empty();
        let s = put(s, "name"@, opt_enc(self.name));
        let s = put(s, "uri"@, opt_enc(self.uri));
        let s = put(s, "scheme"@, opt_enc(self.scheme));
        let s = put(s, "method"@, opt_enc(self.method));
        let s = put(s, "authority"@, opt_enc(self.authority));
        let s = put(s, "headers"@, opt_enc(self.headers));
        let s = put(s, "port"@, opt_enc(self.port));
        let s = put(s, "sourceLabels"@, opt_enc(self.source_labels));
        let s = put(s, "gateways"@, opt_enc(self.gateways));
        let s = put(s, "queryParams"@, opt_enc(self.query_params));
        let s = put(s, "ignoreUriCase"@, opt_enc(self.ignore_uri_case));
        let s = put(s, "withoutHeaders"@, opt_enc(self.without_headers));
        let s = put(s, "sourceNamespace"@, opt_enc(self.source_namespace));
        lemma_opt_field::<String>(s, at, "name"@, self.name);
        lemma_opt_field::<StringMatch>(s, at, "uri"@, self.uri);
        lemma_opt_field::<StringMatch>(s, at, "scheme"@, self.scheme);
        lemma_opt_field::<StringMatch>(s, at, "method"@, self.method);
        lemma_opt_field::<StringMatch>(s, at, "authority"@, self.authority);
        lemma_opt_field::<KeyMap<StringMatch>>(s, at, "headers"@, self.headers);
        lemma_opt_field::<i32>(s, at, "port"@, self.port);
        lemma_opt_field::<KeyMap<String>>(s, at, "sourceLabels"@, self.source_labels);
        lemma_opt_field::<Vec<String>>(s, at, "gateways"@, self.gateways);
        lemma_opt_field::<KeyMap<StringMatch>>(s, at, "queryParams"@, self.query_params);
        lemma_opt_field::<bool>(s, at, "ignoreUriCase"@, self.ignore_uri_case);
        lemma_opt_field::<KeyMap<StringMatch>>(s, at, "withoutHeaders"@, self.without_headers);
        lemma_opt_field::<String>(s, at, "sourceNamespace"@, self.source_namespace);
    }

    fn encode(&self) -> (r: Value) {
        let mut es = empty_entries();
        put_opt(&mut es, "name", &self.name);
        put_opt(&mut es, "uri", &self.uri);
        put_opt(&mut es, "scheme", &self.scheme);
        put_opt(&mut es, "method", &self.method);
        put_opt(&mut es, "authority", &self.authority);
        put_opt(&mut es, "headers", &self.headers);
        put_opt(&mut es, "port", &self.port);
        put_opt(&mut es, "sourceLabels", &self.source_labels);
        put_opt(&mut es, "gateways", &self.gateways);
        put_opt(&mut es, "queryParams", &self.query_params);
        put_opt(&mut es, "ignoreUriCase", &self.ignore_uri_case);
        put_opt(&mut es, "withoutHeaders", &self.without_headers);
        put_opt(&mut es, "sourceNamespace", &self.source_namespace);
        Value::Object(es)
    }

    fn decode(w: &Value, at: &str) -> (r: Result<HttpMatchRequest, DecodeError>) {
        match w {
            Value::Object(es) => {
                let name = match opt_field::<String>(es, at, "name") {
                    Ok(x) => x,
                    Err(e) => return Err(e),
                };
                let uri = match opt_field::<StringMatch>(es, at, "uri") {
                    Ok(x) => x,
                    Err(e) => return Err(e),
                };
                let scheme = match opt_field::<StringMatch>(es, at, "scheme") {
                    Ok(x) => x,
                    Err(e) => return Err(e),
                };
                let method = match opt_field::<StringMatch>(es, at, "method") {
                    Ok(x) => x,
                    Err(e) => return Err(e),
                };
                let authority = match opt_field::<StringMatch>(es, at, "authority") {
                    Ok(x) => x,
                    Err(e) => return Err(e),
                };
                let headers = match opt_field::<KeyMap<StringMatch>>(es, at, "headers") {
                    Ok(x) => x,
                    Err(e) => return Err(e),
                };
                let port = match opt_field::<i32>(es, at, "port") {
                    Ok(x) => x,
                    Err(e) => return Err(e),
                };
                let source_labels = match opt_field::<KeyMap<String>>(es, at, "sourceLabels") {
                    Ok(x) => x,
                    Err(e) => return Err(e),
                };
                let gateways = match opt_field::<Vec<String>>(es, at, "gateways") {
                    Ok(x) => x,
                    Err(e) => return Err(e),
                };
                let query_params = match opt_field::<KeyMap<StringMatch>>(es, at, "queryParams") {
                    Ok(x) => x,
                    Err(e) => return Err(e),
                };
                let ignore_uri_case = match opt_field::<bool>(es, at, "ignoreUriCase") {
                    Ok(x) => x,
                    Err(e) => return Err(e),
                };
                let without_headers = match opt_field::<KeyMap<StringMatch>>(es, at, "withoutHeaders") {
                    Ok(x) => x,
                    Err(e) => return Err(e),
                };
                let source_namespace = match opt_field::<String>(es, at, "sourceNamespace") {
                    Ok(x) => x,
                    Err(e) => return Err(e),
                };
                Ok(HttpMatchRequest { name, uri, scheme, method, authority, headers, port, source_labels, gateways, query_params, ignore_uri_case, without_headers, source_namespace })
            },
            _ => Err(type_mismatch(at, Kind::Object, w)),
        }
    }
}

impl HttpMatchRequest {
    /// The wire keys of the type, as the proofs about its entries need them.
    proof fn lemma_wire_keys()
        ensures
            "name"@.len() == 4,
            "name"@[0] == 'n',
            "uri"@.len() == 3,
            "scheme"@.len() == 6,
            "scheme"@[0] == 's',
            "method"@.len() == 6,
            "method"@[0] == 'm',
            "authority"@.len() == 9,
            "headers"@.len() == 7,
            "port"@.len() == 4,
            "port"@[0] == 'p',
            "sourceLabels"@.len() == 12,
            "gateways"@.len() == 8,
            "queryParams"@.len() == 11,
            "ignoreUriCase"@.len() == 13,
            "withoutHeaders"@.len() == 14,
            "sourceNamespace"@.len() == 15,
    {
        reveal_strlit("name");
        reveal_strlit("uri");
        reveal_strlit("scheme");
        reveal_strlit("method");
        reveal_strlit("authority");
        reveal_strlit("headers");
        reveal_strlit("port");
        reveal_strlit("sourceLabels");
        reveal_strlit("gateways");
        reveal_strlit("queryParams");
        reveal_strlit("ignoreUriCase");
        reveal_strlit("withoutHeaders");
        reveal_strlit("sourceNamespace");
    }

    /// A field that is absent leaves no key in the wire object.
    pub proof fn lemma_absent_fields_omitted(&self)
        ensures
            self.name is None ==> !has_key(self.enc(), "name"@),
            self.uri is None ==> !has_key(self.enc(), "uri"@),
            self.scheme is None ==> !has_key(self.enc(), "scheme"@),
            self.method is None ==> !has_key(self.enc(), "method"@),
            self.authority is None ==> !has_key(self.enc(), "authority"@),
            self.headers is None ==> !has_key(self.enc(), "headers"@),
            self.port is None ==> !has_key(self.enc(), "port"@),
            self.source_labels is None ==> !has_key(self.enc(), "sourceLabels"@),
            self.gateways is None ==> !has_key(self.enc(), "gateways"@),
            self.query_params is None ==> !has_key(self.enc(), "queryParams"@),
            self.ignore_uri_case is None ==> !has_key(self.enc(), "ignoreUriCase"@),
            self.without_headers is None ==> !has_key(self.enc(), "withoutHeaders"@),
            self.source_namespace is None ==> !has_key(self.enc(), "sourceNamespace"@),
    {
        HttpMatchRequest::lemma_wire_keys();
    }
}

/// A destination with the share of traffic it receives.
#[derive(Clone, Debug, PartialEq, Eq)]
pub struct RouteDestination {
    /// Where traffic is forwarded to.
    pub destination: Destination,
    /// Share of the traffic, in percent.
    pub weight: Option<i32>,
}

impl Codec for RouteDestination {
    open spec fn wf(&self) -> bool {
        self.destination.wf()
    }

    open spec fn enc(&self) -> Json {
        let s = Seq::empty();
        let s = s.push(("destination"@, self.destination.enc()));
        let s = put(s, "weight"@, opt_enc(self.weight));
        Json::Object(s)
    }

    open spec fn dec(w: Json, at: Seq<char>) -> Result<Json, Failure> {
        match w {
            Json::Object(es) => {
                let d_destination = req_dec::<Destination>(es, at, "destination"@);
                let d_weight = opt_dec::<i32>(es, at, "weight"@);
                if d_destination is Err {
                    Err(d_destination->Err_0)
                } else if d_weight is Err {
                    Err(d_weight->Err_0)
                } else {
                    let s = Seq::empty();
                    let s = s.push(("destination"@, d_destination->Ok_0));
                    let s = put(s, "weight"@, d_weight->Ok_0);
                    Ok(Json::Object(s))
                }
            },
            _ => Err(mismatch(at, Kind::Object, w)),
        }
    }

    proof fn lemma_round_trip(&self, at: Seq<char>) {
        RouteDestination::lemma_wire_keys();
        let s = Seq::empty();
        let s = s.push(("destination"@, self.destination.enc()));
        let s = put(s, "weight"@, opt_enc(self.weight));
        lemma_req_field::<Destination>(s, at, "destination"@, self.destination);
        lemma_opt_field::<i32>(s, at, "weight"@, self.weight);
    }

    fn encode(&self) -> (r: Value) {
        let mut es = empty_entries();
        put_req(&mut es, "destination", self.destination.encode());
        put_opt(&mut es, "weight", &self.weight);
        Value::Object(es)
    }

    fn decode(w: &Value, at: &str) -> (r: Result<RouteDestination, DecodeError>) {
        match w {
            Value::Object(es) => {
                let destination = match req_field::<Destination>(es, at, "destination") {
                    Ok(x) => x,
                    Err(e) => return Err(e),
                };
                let weight = match opt_field::<i32>(es, at, "weight") {
                    Ok(x) => x,
                    Err(e) => return Err(e),
                };
                Ok(RouteDestination { destination, weight })
            },
            _ => Err(type_mismatch(at, Kind::Object, w)),
        }
    }
}

impl RouteDestination {
    /// The wire keys of the type, as the proofs about its entries need them.
    proof fn lemma_wire_keys()
        ensures
            "destination"@.len() == 11,
            "weight"@.len() == 6,
    {
        reveal_strlit("destination");
        reveal_strlit("weight");
    }

    /// A field that is absent leaves no key in the wire object.
    pub proof fn lemma_absent_fields_omitted(&self)
        ensures
            self.weight is None ==> !has_key(self.enc(), "weight"@),
    {
        RouteDestination::lemma_wire_keys();
    }
}

/// Conditions on a layer-4 connection.
#[derive(Clone, Debug, PartialEq, Eq)]
pub struct L4MatchAttributes {
    /// IPv4 or IPv6 destination subnets.
    pub destination_subnets: Option<Vec<String>>,
    /// The port being addressed.
    pub port: Option<i32>,
    /// Labels of the source workloads.
    pub source_labels: Option<KeyMap<String>>,
    /// Names of the gateways where the rule applies.
    pub gateways: Option<Vec<String>>,
    /// Namespace of the source workloads.
    pub source_namespace: Option<String>,
}

impl Codec for L4MatchAttributes {
    open spec fn wf(&self) -> bool {
        opt_wf(self.destination_subnets) && opt_wf(self.source_labels) && opt_wf(self.gateways)
    }

    open spec fn enc(&self) -> Json {
        let s = Seq::empty();
        let s = put(s, "destinationSubnets"@, opt_enc(self.destination_subnets));
        let s = put(s, "port"@, opt_enc(self.port));
        let s = put(s, "sourceLabels"@, opt_enc(self.source_labels));
        let s = put(s, "gateways"@, opt_enc(self.gateways));
        let s = put(s, "sourceNamespace"@, opt_enc(self.source_namespace));
        Json::Object(s)
    }

    open spec fn dec(w: Json, at: Seq<char>) -> Result<Json, Failure> {
        match w {
            Json::Object(es) => {
                let d_destination_subnets = opt_dec::<Vec<String>>(es, at, "destinationSubnets"@);
                let d_port = opt_dec::<i32>(es, at, "port"@);
                let d_source_labels = opt_dec::<KeyMap<String>>(es, at, "sourceLabels"@);
                let d_gateways = opt_dec::<Vec<String>>(es, at, "gateways"@);
                let d_source_namespace = opt_dec::<String>(es, at, "sourceNamespace"@);
                if d_destination_subnets is Err {
                    Err(d_destination_subnets->Err_0)
                } else if d_port is Err {
                    Err(d_port->Err_0)
                } else if d_source_labels is Err {
                    Err(d_source_labels->Err_0)
                } else if d_gateways is Err {
                    Err(d_gateways->Err_0)
                } else if d_source_namespace is Err {
                    Err(d_source_namespace->Err_0)
                } else {
                    let s = Seq::empty();
                    let s = put(s, "destinationSubnets"@, d_destination_subnets->Ok_0);
                    let s = put(s, "port"@, d_port->Ok_0);
                    let s = put(s, "sourceLabels"@, d_source_labels->Ok_0);
                    let s = put(s, "gateways"@, d_gateways->Ok_0);
                    let s = put(s, "sourceNamespace"@, d_source_namespace->Ok_0);
                    Ok(Json::Object(s))
                }
            },
            _ => Err(mismatch(at, Kind::Object, w)),
        }
    }

    proof fn lemma_round_trip(&self, at: Seq<char>) {
        L4MatchAttributes::lemma_wire_keys();
        let s = Seq::empty();
        let s = put(s, "destinationSubnets"@, opt_enc(self.destination_subnets));
        let s = put(s, "port"@, opt_enc(self.port));
        let s = put(s, "sourceLabels"@, opt_enc(self.source_labels));
        let s = put(s, "gateways"@, opt_enc(self.gateways));
        let s = put(s, "sourceNamespace"@, opt_enc(self.source_namespace));
        lemma_opt_field::<Vec<String>>(s, at, "destinationSubnets"@, self.destination_subnets);
        lemma_opt_field::<i32>(s, at, "port"@, self.port);
        lemma_opt_field::<KeyMap<String>>(s, at, "sourceLabels"@, self.source_labels);
        lemma_opt_field::<Vec<String>>(s, at, "gateways"@, self.gateways);
        lemma_opt_field::<String>(s, at, "sourceNamespace"@, self.source_namespace);
    }

    fn encode(&self) -> (r: Value) {
        let mut es = empty_entries();
        put_opt(&mut es, "destinationSubnets", &self.destination_subnets);
        put_opt(&mut es, "port", &self.port);
        put_opt(&mut es, "sourceLabels", &self.source_labels);
        put_opt(&mut es, "gateways", &self.gateways);
        put_opt(&mut es, "sourceNamespace", &self.source_namespace);
        Value::Object(es)
    }

    fn decode(w: &Value, at: &str) -> (r: Result<L4MatchAttributes, DecodeError>) {
        match w {
            Value::Object(es) => {
                let destination_subnets = match opt_field::<Vec<String>>(es, at, "destinationSubnets") {
                    Ok(x) => x,
                    Err(e) => return Err(e),
                };
                let port = match opt_field::<i32>(es, at, "port") {
                    Ok(x) => x,
                    Err(e) => return Err(e),
                };
                let source_labels = match opt_field::<KeyMap<String>>(es, at, "sourceLabels") {
                    Ok(x) => x,
                    Err(e) => return Err(e),
                };
                let gateways = match opt_field::<Vec<String>>(es, at, "gateways") {
                    Ok(x) => x,
                    Err(e) => return Err(e),
                };
                let source_namespace = match opt_field::<String>(es, at, "sourceNamespace") {
                    Ok(x) => x,
                    Err(e) => return Err(e),
                };
                Ok(L4MatchAttributes { destination_subnets, port, source_labels, gateways, source_namespace })
            },
            _ => Err(type_mismatch(at, Kind::Object, w)),
        }
    }
}

impl L4MatchAttributes {
    /// The wire keys of the type, as the proofs about its entries need them.
    proof fn lemma_wire_keys()
        ensures
            "destinationSubnets"@.len() == 18,
            "port"@.len() == 4,
            "sourceLabels"@.len() == 12,
            "gateways"@.len() == 8,
            "sourceNamespace"@.len() == 15,
    {
        reveal_strlit("destinationSubnets");
        reveal_strlit("port");
        reveal_strlit("sourceLabels");
        reveal_strlit("gateways");
        reveal_strlit("sourceNamespace");
    }

    /// A field that is absent leaves no key in the wire object.
    pub proof fn lemma_absent_fields_omitted(&self)
        ensures
            self.destination_subnets is None ==> !has_key(self.enc(), "destinationSubnets"@),
            self.port is None ==> !has_key(self.enc(), "port"@),
            self.source_labels is None ==> !has_key(self.enc(), "sourceLabels"@),
            self.gateways is None ==> !has_key(self.enc(), "gateways"@),
            self.source_namespace is None ==> !has_key(self.enc(), "sourceNamespace"@),
    {
        L4MatchAttributes::lemma_wire_keys();
    }
}

/// Conditions on a TLS connection.
#[derive(Clone, Debug, PartialEq, Eq)]
pub struct TlsMatchAttribures {
    /// SNI values to match on.
    pub sni_hosts: Vec<String>,
    /// IPv4 or IPv6 destination subnets.
    pub destination_subnets: Option<Vec<String>>,
    /// The port being addressed.
    pub port: Option<u32>,
    /// Labels of the source workloads.
    pub source_labels: Option<KeyMap<String>>,
    /// Name of the gateway where the rule applies; a single name here, where layer-4 matches take a list.
    pub gateways: Option<String>,
    /// Namespace of the source workloads.
    pub source_namespace: Option<String>,
}

impl Codec for TlsMatchAttribures {
    open spec fn wf(&self) -> bool {
        self.sni_hosts.wf() && opt_wf(self.destination_subnets) && opt_wf(self.source_labels)
    }

    open spec fn enc(&self) -> Json {
        let s = Seq::empty();
        let s = s.push(("sniHosts"@, self.sni_hosts.enc()));
        let s = put(s, "destinationSubnets"@, opt_enc(self.destination_subnets));
        let s = put(s, "port"@, opt_enc(self.port));
        let s = put(s, "sourceLabels"@, opt_enc(self.source_labels));
        let s = put(s, "gateways"@, opt_enc(self.gateways));
        let s = put(s, "sourceNamespace"@, opt_enc(self.source_namespace));
        Json::Object(s)
    }

    open spec fn dec(w: Json, at: Seq<char>) -> Result<Json, Failure> {
        match w {
            Json::Object(es) => {
                let d_sni_hosts = req_dec::<Vec<String>>(es, at, "sniHosts"@);
                let d_destination_subnets = opt_dec::<Vec<String>>(es, at, "destinationSubnets"@);
                let d_port = opt_dec::<u32>(es, at, "port"@);
                let d_source_labels = opt_dec::<KeyMap<String>>(es, at, "sourceLabels"@);
                let d_gateways = opt_dec::<String>(es, at, "gateways"@);
                let d_source_namespace = opt_dec::<String>(es, at, "sourceNamespace"@);
                if d_sni_hosts is Err {
                    Err(d_sni_hosts->Err_0)
                } else if d_destination_subnets is Err {
                    Err(d_destination_subnets->Err_0)
                } else if d_port is Err {
                    Err(d_port->Err_0)
                } else if d_source_labels is Err {
                    Err(d_source_labels->Err_0)
                } else if d_gateways is Err {
                    Err(d_gateways->Err_0)
                } else if d_source_namespace is Err {
                    Err(d_source_namespace->Err_0)
                } else {
                    let s = Seq::empty();
                    let s = s.push(("sniHosts"@, d_sni_hosts->Ok_0));
                    let s = put(s, "destinationSubnets"@, d_destination_subnets->Ok_0);
                    let s = put(s, "port"@, d_port->Ok_0);
                    let s = put(s, "sourceLabels"@, d_source_labels->Ok_0);
                    let s = put(s, "gateways"@, d_gateways->Ok_0);
                    let s = put(s, "sourceNamespace"@, d_source_namespace->Ok_0);
                    Ok(Json::Object(s))
                }
            },
            _ => Err(mismatch(at, Kind::Object, w)),
        }
    }

    proof fn lemma_round_trip(&self, at: Seq<char>) {
        TlsMatchAttribures::lemma_wire_keys();
        let s = Seq::empty();
        let s = s.push(("sniHosts"@, self.sni_hosts.enc()));
        let s = put(s, "destinationSubnets"@, opt_enc(self.destination_subnets));
        let s = put(s, "port"@, opt_enc(self.port));
        let s = put(s, "sourceLabels"@, opt_enc(self.source_labels));
        let s = put(s, "gateways"@, opt_enc(self.gateways));
        let s = put(s, "sourceNamespace"@, opt_enc(self.source_namespace));
        lemma_req_field::<Vec<String>>(s, at, "sniHosts"@, self.sni_hosts);
        lemma_opt_field::<Vec<String>>(s, at, "destinationSubnets"@, self.destination_subnets);
        lemma_opt_field::<u32>(s, at, "port"@, self.port);
        lemma_opt_field::<KeyMap<String>>(s, at, "sourceLabels"@, self.source_labels);
        lemma_opt_field::<String>(s, at, "gateways"@, self.gateways);
        lemma_opt_field::<String>(s, at, "sourceNamespace"@, self.source_namespace);
    }

    fn encode(&self) -> (r: Value) {
        let mut es = empty_entries();
        put_req(&mut es, "sniHosts", self.sni_hosts.encode());
        put_opt(&mut es, "destinationSubnets", &self.destination_subnets);
        put_opt(&mut es, "port", &self.port);
        put_opt(&mut es, "sourceLabels", &self.source_labels);
        put_opt(&mut es, "gateways", &self.gateways);
        put_opt(&mut es, "sourceNamespace", &self.source_namespace);
        Value::Object(es)
    }

    fn decode(w: &Value, at: &str) -> (r: Result<TlsMatchAttribures, DecodeError>) {
        match w {
            Value::Object(es) => {
                let sni_hosts = match req_field::<Vec<String>>(es, at, "sniHosts") {
                    Ok(x) => x,
                    Err(e) => return Err(e),
                };
                let destination_subnets = match opt_field::<Vec<String>>(es, at, "destinationSubnets") {
                    Ok(x) => x,
                    Err(e) => return Err(e),
                };
                let port = match opt_field::<u32>(es, at, "port") {
                    Ok(x) => x,
                    Err(e) => return Err(e),
                };
                let source_labels = match opt_field::<KeyMap<String>>(es, at, "sourceLabels") {
                    Ok(x) => x,
                    Err(e) => return Err(e),
                };
                let gateways = match opt_field::<String>(es, at, "gateways") {
                    Ok(x) => x,
                    Err(e) => return Err(e),
                };
                let source_namespace = match opt_field::<String>(es, at, "sourceNamespace") {
                    Ok(x) => x,
                    Err(e) => return Err(e),
                };
                Ok(TlsMatchAttribures { sni_hosts, destination_subnets, port, source_labels, gateways, source_namespace })
            },
            _ => Err(type_mismatch(at, Kind::Object, w)),
        }
    }
}

impl TlsMatchAttribures {
    /// The wire keys of the type, as the proofs about its entries need them.
    proof fn lemma_wire_keys()
        ensures
            "sniHosts"@.len() == 8,
            "sniHosts"@[0] == 's',
            "destinationSubnets"@.len() == 18,
            "port"@.len() == 4,
            "sourceLabels"@.len() == 12,
            "gateways"@.len() == 8,
            "gateways"@[0] == 'g',
            "sourceNamespace"@.len() == 15,
    {
        reveal_strlit("sniHosts");
        reveal_strlit("destinationSubnets");
        reveal_strlit("port");
        reveal_strlit("sourceLabels");
        reveal_strlit("gateways");
        reveal_strlit("sourceNamespace");
    }

    /// A field that is absent leaves no key in the wire object.
    pub proof fn lemma_absent_fields_omitted(&self)
        ensures
            self.destination_subnets is None ==> !has_key(self.enc(), "destinationSubnets"@),
            self.port is None ==> !has_key(self.enc(), "port"@),
            self.source_labels is None ==> !has_key(self.enc(), "sourceLabels"@),
            self.gateways is None ==> !has_key(self.enc(), "gateways"@),
            self.source_namespace is None ==> !has_key(self.enc(), "sourceNamespace"@),
    {
        TlsMatchAttribures::lemma_wire_keys();
    }
}

/// A redirect sent back to the client.
#[derive(Clone, Debug, PartialEq, Eq)]
pub struct HttpRedirect {
    /// Path that replaces the URI's path.
    pub uri: Option<String>,
    /// Authority that replaces the URI's authority.
    pub authority: Option<String>,
    /// Port that replaces the URI's port.
    pub port: Option<u32>,
    /// How the redirect port is chosen.
    pub derive_port: Option<RedirectPortSelection>,
    /// Scheme that replaces the URI's scheme.
    pub scheme: Option<String>,
    /// HTTP status code of the redirect.
    pub redirect_code: Option<i32>,
}

impl Codec for HttpRedirect {
    open spec fn wf(&self) -> bool {
        true
    }

    open spec fn enc(&self) -> Json {
        let s = Seq::empty();
        let s = put(s, "uri"@, opt_enc(self.uri));
        let s = put(s, "authority"@, opt_enc(self.authority));
        let s = put(s, "port"@, opt_enc(self.port));
        let s = put(s, "derivePort"@, opt_enc(self.derive_port));
        let s = put(s, "scheme"@, opt_enc(self.scheme));
        let s = put(s, "redirectCode"@, opt_enc(self.redirect_code));
        Json::Object(s)
    }

    open spec fn dec(w: Json, at: Seq<char>) -> Result<Json, Failure> {
        match w {
            Json::Object(es) => {
                let d_uri = opt_dec::<String>(es, at, "uri"@);
                let d_authority = opt_dec::<String>(es, at, "authority"@);
                let d_port = opt_dec::<u32>(es, at, "port"@);
                let d_derive_port = opt_dec::<RedirectPortSelection>(es, at, "derivePort"@);
                let d_scheme = opt_dec::<String>(es, at, "scheme"@);
                let d_redirect_code = opt_dec::<i32>(es, at, "redirectCode"@);
                if d_uri is Err {
                    Err(d_uri->Err_0)
                } else if d_authority is Err {
                    Err(d_authority->Err_0)
                } else if d_port is Err {
                    Err(d_port->Err_0)
                } else if d_derive_port is Err {
                    Err(d_derive_port->Err_0)
                } else if d_scheme is Err {
                    Err(d_scheme->Err_0)
                } else if d_redirect_code is Err {
                    Err(d_redirect_code->Err_0)
                } else {
                    let s = Seq::empty();
                    let s = put(s, "uri"@, d_uri->Ok_0);
                    let s = put(s, "authority"@, d_authority->Ok_0);
                    let s = put(s, "port"@, d_port->Ok_0);
                    let s = put(s, "derivePort"@, d_derive_port->Ok_0);
                    let s = put(s, "scheme"@, d_scheme->Ok_0);
                    let s = put(s, "redirectCode"@, d_redirect_code->Ok_0);
                    Ok(Json::Object(s))
                }
            },
            _ => Err(mismatch(at, Kind::Object, w)),
        }
    }

    proof fn lemma_round_trip(&self, at: Seq<char>) {
        HttpRedirect::lemma_wire_keys();
        let s = Seq::empty();
        let s = put(s, "uri"@, opt_enc(self.uri));
        let s = put(s, "authority"@, opt_enc(self.authority));
        let s = put(s, "port"@, opt_enc(self.port));
        let s = put(s, "derivePort"@, opt_enc(self.derive_port));
        let s = put(s, "scheme"@, opt_enc(self.scheme));
        let s = put(s, "redirectCode"@, opt_enc(self.redirect_code));
        lemma_opt_field::<String>(s, at, "uri"@, self.uri);
        lemma_opt_field::<String>(s, at, "authority"@, self.authority);
        lemma_opt_field::<u32>(s, at, "port"@, self.port);
        lemma_opt_field::<RedirectPortSelection>(s, at, "derivePort"@, self.derive_port);
        lemma_opt_field::<String>(s, at, "scheme"@, self.scheme);
        lemma_opt_field::<i32>(s, at, "redirectCode"@, self.redirect_code);
    }

    fn encode(&self) -> (r: Value) {
        let mut es = empty_entries();
        put_opt(&mut es, "uri", &self.uri);
        put_opt(&mut es, "authority", &self.authority);
        put_opt(&mut es, "port", &self.port);
        put_opt(&mut es, "derivePort", &self.derive_port);
        put_opt(&mut es, "scheme", &self.scheme);
        put_opt(&mut es, "redirectCode", &self.redirect_code);
        Value::Object(es)
    }

    fn decode(w: &Value, at: &str) -> (r: Result<HttpRedirect, DecodeError>) {
        match w {
            Value::Object(es) => {
                let uri = match opt_field::<String>(es, at, "uri") {
                    Ok(x) => x,
                    Err(e) => return Err(e),
                };
                let authority = match opt_field::<String>(es, at, "authority") {
                    Ok(x) => x,
                    Err(e) => return Err(e),
                };
                let port = match opt_field::<u32>(es, at, "port") {
                    Ok(x) => x,
                    Err(e) => return Err(e),
                };
                let derive_port = match opt_field::<RedirectPortSelection>(es, at, "derivePort") {
                    Ok(x) => x,
                    Err(e) => return Err(e),
                };
                let scheme = match opt_field::<String>(es, at, "scheme") {
                    Ok(x) => x,
                    Err(e) => return Err(e),
                };
                let redirect_code = match opt_field::<i32>(es, at, "redirectCode") {
                    Ok(x) => x,
                    Err(e) => return Err(e),
                };
                Ok(HttpRedirect { uri, authority, port, derive_port, scheme, redirect_code })
            },
            _ => Err(type_mismatch(at, Kind::Object, w)),
        }
    }
}

impl HttpRedirect {
    /// The wire keys of the type, as the proofs about its entries need them.
    proof fn lemma_wire_keys()
        ensures
            "uri"@.len() == 3,
            "authority"@.len() == 9,
            "port"@.len() == 4,
            "derivePort"@.len() == 10,
            "scheme"@.len() == 6,
            "redirectCode"@.len() == 12,
    {
        reveal_strlit("uri");
        reveal_strlit("authority");
        reveal_strlit("port");
        reveal_strlit("derivePort");
        reveal_strlit("scheme");
        reveal_strlit("redirectCode");
    }

    /// A field that is absent leaves no key in the wire object.
    pub proof fn lemma_absent_fields_omitted(&self)
        ensures
            self.uri is None ==> !has_key(self.enc(), "uri"@),
            self.authority is None ==> !has_key(self.enc(), "authority"@),
            self.port is None ==> !has_key(self.enc(), "port"@),
            self.derive_port is None ==> !has_key(self.enc(), "derivePort"@),
            self.scheme is None ==> !has_key(self.enc(), "scheme"@),
            self.redirect_code is None ==> !has_key(self.enc(), "redirectCode"@),
    {
        HttpRedirect::lemma_wire_keys();
    }
}

/// An HTTP destination with its share of traffic and header rules.
#[derive(Clone, Debug, PartialEq, Eq)]
pub struct HttpRouteDestination {
    /// Where requests are forwarded to.
    pub destination: Destination,
    /// Share of the traffic, in percent.
    pub weight: Option<i32>,
    /// Header manipulation rules.
    pub headers: Option<Headers>,
}

impl Codec for HttpRouteDestination {
    open spec fn wf(&self) -> bool {
        self.destination.wf() && opt_wf(self.headers)
    }

    open spec fn enc(&self) -> Json {
        let s = Seq::empty();
        let s = s.push(("destination"@, self.destination.enc()));
        let s = put(s, "weight"@, opt_enc(self.weight));
        let s = put(s, "headers"@, opt_enc(self.headers));
        Json::Object(s)
    }

    open spec fn dec(w: Json, at: Seq<char>) -> Result<Json, Failure> {
        match w {
            Json::Object(es) => {
                let d_destination = req_dec::<Destination>(es, at, "destination"@);
                let d_weight = opt_dec::<i32>(es, at, "weight"@);
                let d_headers = opt_dec::<Headers>(es, at, "headers"@);
                if d_destination is Err {
                    Err(d_destination->Err_0)
                } else if d_weight is Err {
                    Err(d_weight->Err_0)
                } else if d_headers is Err {
                    Err(d_headers->Err_0)
                } else {
                    let s = Seq::empty();
                    let s = s.push(("destination"@, d_destination->Ok_0));
                    let s = put(s, "weight"@, d_weight->Ok_0);
                    let s = put(s, "headers"@, d_headers->Ok_0);
                    Ok(Json::Object(s))
                }
            },
            _ => Err(mismatch(at, Kind::Object, w)),
        }
    }

    proof fn lemma_round_trip(&self, at: Seq<char>) {
        HttpRouteDestination::lemma_wire_keys();
        let s = Seq::empty();
        let s = s.push(("destination"@, self.destination.enc()));
        let s = put(s, "weight"@, opt_enc(self.weight));
        let s = put(s, "headers"@, opt_enc(self.headers));
        lemma_req_field::<Destination>(s, at, "destination"@, self.destination);
        lemma_opt_field::<i32>(s, at, "weight"@, self.weight);
        lemma_opt_field::<Headers>(s, at, "headers"@, self.headers);
    }

    fn encode(&self) -> (r: Value) {
        let mut es = empty_entries();
        put_req(&mut es, "destination", self.destination.encode());
        put_opt(&mut es, "weight", &self.weight);
        put_opt(&mut es, "headers", &self.headers);
        Value::Object(es)
    }

    fn decode(w: &Value, at: &str) -> (r: Result<HttpRouteDestination, DecodeError>) {
        match w {
            Value::Object(es) => {
                let destination = match req_field::<Destination>(es, at, "destination") {
                    Ok(x) => x,
                    Err(e) => return Err(e),
                };
                let weight = match opt_field::<i32>(es, at, "weight") {
                    Ok(x) => x,
                    Err(e) => return Err(e),
                };
                let headers = match opt_field::<Headers>(es, at, "headers") {
                    Ok(x) => x,
                    Err(e) => return Err(e),
                };
                Ok(HttpRouteDestination { destination, weight, headers })
            },
            _ => Err(type_mismatch(at, Kind::Object, w)),
        }
    }
}

impl HttpRouteDestination {
    /// The wire keys of the type, as the proofs about its entries need them.
    proof fn lemma_wire_keys()
        ensures
            "destination"@.len() == 11,
            "weight"@.len() == 6,
            "headers"@.len() == 7,
    {
        reveal_strlit("destination");
        reveal_strlit("weight");
        reveal_strlit("headers");
    }

    /// A field that is absent leaves no key in the wire object.
    pub proof fn lemma_absent_fields_omitted(&self)
        ensures
            self.weight is None ==> !has_key(self.enc(), "weight"@),
            self.headers is None ==> !has_key(self.enc(), "headers"@),
    {
        HttpRouteDestination::lemma_wire_keys();
    }
}

/// A rewrite of a request before it is forwarded.
#[derive(Clone, Debug, PartialEq, Eq)]
pub struct HttpRewrite {
    /// Text that replaces the path or its matched prefix.
    pub uri: Option<String>,
    /// Text that replaces the authority header.
    pub authority: Option<String>,
}

impl Codec for HttpRewrite {
    open spec fn wf(&self) -> bool {
        true
    }

    open spec fn enc(&self) -> Json {
        let s = Seq::empty();
        let s = put(s, "uri"@, opt_enc(self.uri));
        let s = put(s, "authority"@, opt_enc(self.authority));
        Json::Object(s)
    }

    open spec fn dec(w: Json, at: Seq<char>) -> Result<Json, Failure> {
        match w {
            Json::Object(es) => {
                let d_uri = opt_dec::<String>(es, at, "uri"@);
                let d_authority = opt_dec::<String>(es, at, "authority"@);
                if d_uri is Err {
                    Err(d_uri->Err_0)
                } else if d_authority is Err {
                    Err(d_authority->Err_0)
                } else {
                    let s = Seq::empty();
                    let s = put(s, "uri"@, d_uri->Ok_0);
                    let s = put(s, "authority"@, d_authority->Ok_0);
                    Ok(Json::Object(s))
                }
            },
            _ => Err(mismatch(at, Kind::Object, w)),
        }
    }

    proof fn lemma_round_trip(&self, at: Seq<char>) {
        HttpRewrite::lemma_wire_keys();
        let s = Seq::empty();
        let s = put(s, "uri"@, opt_enc(self.uri));
        let s = put(s, "authority"@, opt_enc(self.authority));
        lemma_opt_field::<String>(s, at, "uri"@, self.uri);
        lemma_opt_field::<String>(s, at, "authority"@, self.authority);
    }

    fn encode(&self) -> (r: Value) {
        let mut es = empty_entries();
        put_opt(&mut es, "uri", &self.uri);
        put_opt(&mut es, "authority", &self.authority);
        Value::Object(es)
    }

    fn decode(w: &Value, at: &str) -> (r: Result<HttpRewrite, DecodeError>) {
        match w {
            Value::Object(es) => {
                let uri = match opt_field::<String>(es, at, "uri") {
                    Ok(x) => x,
                    Err(e) => return Err(e),
                };
                let authority = match opt_field::<String>(es, at, "authority") {
                    Ok(x) => x,
                    Err(e) => return Err(e),
                };
                Ok(HttpRewrite { uri, authority })
            },
            _ => Err(type_mismatch(at, Kind::Object, w)),
        }
    }
}

impl HttpRewrite {
    /// The wire keys of the type, as the proofs about its entries need them.
    proof fn lemma_wire_keys()
        ensures
            "uri"@.len() == 3,
            "authority"@.len() == 9,
    {
        reveal_strlit("uri");
        reveal_strlit("authority");
    }

    /// A field that is absent leaves no key in the wire object.
    pub proof fn lemma_absent_fields_omitted(&self)
        ensures
            self.uri is None ==> !has_key(self.enc(), "uri"@),
            self.authority is None ==> !has_key(self.enc(), "authority"@),
    {
        HttpRewrite::lemma_wire_keys();
    }
}

/// A condition on a string: exact, by prefix, or by regular expression.
///
/// On the wire a variant is an object; the key that only that variant has tells which it is.
#[allow(non_camel_case_types)]
#[derive(Clone, Debug, PartialEq, Eq)]
pub enum StringMatch {
    exact(String),
    prefix(String),
    regex(String),
}

impl Codec for StringMatch {
    open spec fn wf(&self) -> bool {
        match self {
            StringMatch::exact(value) => true,
            StringMatch::prefix(value) => true,
            StringMatch::regex(value) => true,
        }
    }

    open spec fn enc(&self) -> Json {
        match self {
            StringMatch::exact(value) => {
                let s = Seq::empty();
                let s = s.push(("exact"@, (*value).enc()));
                Json::Object(s)
            },
            StringMatch::prefix(value) => {
                let s = Seq::empty();
                let s = s.push(("prefix"@, (*value).enc()));
                Json::Object(s)
            },
            StringMatch::regex(value) => {
                let s = Seq::empty();
                let s = s.push(("regex"@, (*value).enc()));
                Json::Object(s)
            },
        }
    }

    open spec fn dec(w: Json, at: Seq<char>) -> Result<Json, Failure> {
        match w {
            Json::Object(es) => {
                let t = Seq::empty();
                let t = tag_step(t, es, "exact"@);
                let t = tag_step(t, es, "prefix"@);
                let t = tag_step(t, es, "regex"@);
                if t.len() == 0 {
                    Err(Failure::NoMatchingVariant { union_name: "StringMatch"@ })
                } else if t.len() > 1 {
                    Err(Failure::AmbiguousVariant { union_name: "StringMatch"@, tags: t })
                } else if lookup(es, "exact"@) is Some {
                    let d_value = req_dec::<String>(es, at, "exact"@);
                    if d_value is Err {
                        Err(d_value->Err_0)
                    } else {
                        let s = Seq::empty();
                        let s = s.push(("exact"@, d_value->Ok_0));
                        Ok(Json::Object(s))
                    }
                } else if lookup(es, "prefix"@) is Some {
                    let d_value = req_dec::<String>(es, at, "prefix"@);
                    if d_value is Err {
                        Err(d_value->Err_0)
                    } else {
                        let s = Seq::empty();
                        let s = s.push(("prefix"@, d_value->Ok_0));
                        Ok(Json::Object(s))
                    }
                } else {
                    let d_value = req_dec::<String>(es, at, "regex"@);
                    if d_value is Err {
                        Err(d_value->Err_0)
                    } else {
                        let s = Seq::empty();
                        let s = s.push(("regex"@, d_value->Ok_0));
                        Ok(Json::Object(s))
                    }
                }
            },
            _ => Err(mismatch(at, Kind::Object, w)),
        }
    }

    proof fn lemma_round_trip(&self, at: Seq<char>) {
        StringMatch::lemma_wire_keys();
        match self {
            StringMatch::exact(value) => {
                let s = Seq::empty();
                let s = s.push(("exact"@, (*value).enc()));
                lemma_req_field::<String>(s, at, "exact"@, (*value));
            },
            StringMatch::prefix(value) => {
                let s = Seq::empty();
                let s = s.push(("prefix"@, (*value).enc()));
                lemma_req_field::<String>(s, at, "prefix"@, (*value));
            },
            StringMatch::regex(value) => {
                let s = Seq::empty();
                let s = s.push(("regex"@, (*value).enc()));
                lemma_req_field::<String>(s, at, "regex"@, (*value));
            },
        }
    }

    fn encode(&self) -> (r: Value) {
        match self {
            StringMatch::exact(value) => {
                let mut es = empty_entries();
                put_req(&mut es, "exact", value.encode());
                Value::Object(es)
            },
            StringMatch::prefix(value) => {
                let mut es = empty_entries();
                put_req(&mut es, "prefix", value.encode());
                Value::Object(es)
            },
            StringMatch::regex(value) => {
                let mut es = empty_entries();
                put_req(&mut es, "regex", value.encode());
                Value::Object(es)
            },
        }
    }

    fn decode(w: &Value, at: &str) -> (r: Result<StringMatch, DecodeError>) {
        match w {
            Value::Object(es) => {
                let mut tags: Vec<String> = Vec::new();
                assert(strings(tags@) =~= Seq::<Seq<char>>::empty());
                add_tag(&mut tags, es, "exact");
                add_tag(&mut tags, es, "prefix");
                add_tag(&mut tags, es, "regex");
                if tags.len() == 0 {
                    Err(DecodeError::NoMatchingVariant { union_name: String::from_str("StringMatch") })
                } else if tags.len() > 1 {
                    Err(DecodeError::AmbiguousVariant { union_name: String::from_str("StringMatch"), tags })
                } else if has_field(es, "exact") {
                    let value = match req_field::<String>(es, at, "exact") {
                        Ok(x) => x,
                        Err(e) => return Err(e),
                    };
                    Ok(StringMatch::exact(value))
                } else if has_field(es, "prefix") {
                    let value = match req_field::<String>(es, at, "prefix") {
                        Ok(x) => x,
                        Err(e) => return Err(e),
                    };
                    Ok(StringMatch::prefix(value))
                } else {
                    let value = match req_field::<String>(es, at, "regex") {
                        Ok(x) => x,
                        Err(e) => return Err(e),
                    };
                    Ok(StringMatch::regex(value))
                }
            },
            _ => Err(type_mismatch(at, Kind::Object, w)),
        }
    }
}

impl StringMatch {
    /// The wire keys of the type, as the proofs about its entries need them.
    proof fn lemma_wire_keys()
        ensures
            "exact"@.len() == 5,
            "exact"@[0] == 'e',
            "prefix"@.len() == 6,
            "regex"@.len() == 5,
            "regex"@[0] == 'r',
    {
        reveal_strlit("exact");
        reveal_strlit("prefix");
        reveal_strlit("regex");
    }
}

/// Retry policy of HTTP requests.
#[derive(Clone, Debug, PartialEq, Eq)]
pub struct HttpRetry {
    /// Number of retries of a request.
    pub attempts: i32,
    /// Timeout of each attempt.
    pub per_try_timeout: Option<Duration>,
    /// Conditions under which a retry takes place.
    pub retry_on: Option<String>,
    /// Whether retries go to other localities.
    pub retry_remote_localities: Option<bool>,
}

impl Codec for HttpRetry {
    open spec fn wf(&self) -> bool {
        true
    }

    open spec fn enc(&self) -> Json {
        let s = Seq::empty();
        let s = s.push(("attempts"@, self.attempts.enc()));
        let s = put(s, "perTryTimeout"@, opt_enc(self.per_try_timeout));
        let s = put(s, "retryOn"@, opt_enc(self.retry_on));
        let s = put(s, "retryRemoteLocalities"@, opt_enc(self.retry_remote_localities));
        Json::Object(s)
    }

    open spec fn dec(w: Json, at: Seq<char>) -> Result<Json, Failure> {
        match w {
            Json::Object(es) => {
                let d_attempts = req_dec::<i32>(es, at, "attempts"@);
                let d_per_try_timeout = opt_dec::<Duration>(es, at, "perTryTimeout"@);
                let d_retry_on = opt_dec::<String>(es, at, "retryOn"@);
                let d_retry_remote_localities = opt_dec::<bool>(es, at, "retryRemoteLocalities"@);
                if d_attempts is Err {
                    Err(d_attempts->Err_0)
                } else if d_per_try_timeout is Err {
                    Err(d_per_try_timeout->Err_0)
                } else if d_retry_on is Err {
                    Err(d_retry_on->Err_0)
                } else if d_retry_remote_localities is Err {
                    Err(d_retry_remote_localities->Err_0)
                } else {
                    let s = Seq::empty();
                    let s = s.push(("attempts"@, d_attempts->Ok_0));
                    let s = put(s, "perTryTimeout"@, d_per_try_timeout->Ok_0);
                    let s = put(s, "retryOn"@, d_retry_on->Ok_0);
                    let s = put(s, "retryRemoteLocalities"@, d_retry_remote_localities->Ok_0);
                    Ok(Json::Object(s))
                }
            },
            _ => Err(mismatch(at, Kind::Object, w)),
        }
    }

    proof fn lemma_round_trip(&self, at: Seq<char>) {
        HttpRetry::lemma_wire_keys();
        let s = Seq::empty();
        let s = s.push(("attempts"@, self.attempts.enc()));
        let s = put(s, "perTryTimeout"@, opt_enc(self.per_try_timeout));
        let s = put(s, "retryOn"@, opt_enc(self.retry_on));
        let s = put(s, "retryRemoteLocalities"@, opt_enc(self.retry_remote_localities));
        lemma_req_field::<i32>(s, at, "attempts"@, self.attempts);
        lemma_opt_field::<Duration>(s, at, "perTryTimeout"@, self.per_try_timeout);
        lemma_opt_field::<String>(s, at, "retryOn"@, self.retry_on);
        lemma_opt_field::<bool>(s, at, "retryRemoteLocalities"@, self.retry_remote_localities);
    }

    fn encode(&self) -> (r: Value) {
        let mut es = empty_entries();
        put_req(&mut es, "attempts", self.attempts.encode());
        put_opt(&mut es, "perTryTimeout", &self.per_try_timeout);
        put_opt(&mut es, "retryOn", &self.retry_on);
        put_opt(&mut es, "retryRemoteLocalities", &self.retry_remote_localities);
        Value::Object(es)
    }

    fn decode(w: &Value, at: &str) -> (r: Result<HttpRetry, DecodeError>) {
        match w {
            Value::Object(es) => {
                let attempts = match req_field::<i32>(es, at, "attempts") {
                    Ok(x) => x,
                    Err(e) => return Err(e),
                };
                let per_try_timeout = match opt_field::<Duration>(es, at, "perTryTimeout") {
                    Ok(x) => x,
                    Err(e) => return Err(e),
                };
                let retry_on = match opt_field::<String>(es, at, "retryOn") {
                    Ok(x) => x,
                    Err(e) => return Err(e),
                };
                let retry_remote_localities = match opt_field::<bool>(es, at, "retryRemoteLocalities") {
                    Ok(x) => x,
                    Err(e) => return Err(e),
                };
                Ok(HttpRetry { attempts, per_try_timeout, retry_on, retry_remote_localities })
            },
            _ => Err(type_mismatch(at, Kind::Object, w)),
        }
    }
}

impl HttpRetry {
    /// The wire keys of the type, as the proofs about its entries need them.
    proof fn lemma_wire_keys()
        ensures
            "attempts"@.len() == 8,
            "perTryTimeout"@.len() == 13,
            "retryOn"@.len() == 7,
            "retryRemoteLocalities"@.len() == 21,
    {
        reveal_strlit("attempts");
        reveal_strlit("perTryTimeout");
        reveal_strlit("retryOn");
        reveal_strlit("retryRemoteLocalities");
    }

    /// A field that is absent leaves no key in the wire object.
    pub proof fn lemma_absent_fields_omitted(&self)
        ensures
            self.per_try_timeout is None ==> !has_key(self.enc(), "perTryTimeout"@),
            self.retry_on is None ==> !has_key(self.enc(), "retryOn"@),
            self.retry_remote_localities is None ==> !has_key(self.enc(), "retryRemoteLocalities"@),
    {
        HttpRetry::lemma_wire_keys();
    }
}

/// Cross-origin resource sharing policy.
#[derive(Clone, Debug, PartialEq, Eq)]
pub struct CorsPolicy {
    /// Origins that are allowed.
    pub allow_origins: Option<Vec<StringMatch>>,
    /// HTTP methods that are allowed.
    pub allow_methods: Option<Vec<String>>,
    /// HTTP headers that are allowed.
    pub allow_headers: Option<Vec<String>>,
    /// HTTP headers that browsers may read.
    pub expose_headers: Option<Vec<String>>,
    /// How long preflight results are cached.
    pub max_age: Option<Duration>,
    /// Whether credentials are allowed.
    pub allow_credentials: Option<bool>,
}

impl Codec for CorsPolicy {
    open spec fn wf(&self) -> bool {
        opt_wf(self.allow_origins) && opt_wf(self.allow_methods) && opt_wf(self.allow_headers) && opt_wf(self.expose_headers)
    }

    open spec fn enc(&self) -> Json {
        let s = Seq::empty();
        let s = put(s, "allowOrigins"@, opt_enc(self.allow_origins));
        let s = put(s, "allowMethods"@, opt_enc(self.allow_methods));
        let s = put(s, "allowHeaders"@, opt_enc(self.allow_headers));
        let s = put(s, "exposeHeaders"@, opt_enc(self.expose_headers));
        let s = put(s, "maxAge"@, opt_enc(self.max_age));
        let s = put(s, "allowCredentials"@, opt_enc(self.allow_credentials));
        Json::Object(s)
    }

    open spec fn dec(w: Json, at: Seq<char>) -> Result<Json, Failure> {
        match w {
            Json::Object(es) => {
                let d_allow_origins = opt_dec::<Vec<StringMatch>>(es, at, "allowOrigins"@);
                let d_allow_methods = opt_dec::<Vec<String>>(es, at, "allowMethods"@);
                let d_allow_headers = opt_dec::<Vec<String>>(es, at, "allowHeaders"@);
                let d_expose_headers = opt_dec::<Vec<String>>(es, at, "exposeHeaders"@);
                let d_max_age = opt_dec::<Duration>(es, at, "maxAge"@);
                let d_allow_credentials = opt_dec::<bool>(es, at, "allowCredentials"@);
                if d_allow_origins is Err {
                    Err(d_allow_origins->Err_0)
                } else if d_allow_methods is Err {
                    Err(d_allow_methods->Err_0)
                } else if d_allow_headers is Err {
                    Err(d_allow_headers->Err_0)
                } else if d_expose_headers is Err {
                    Err(d_expose_headers->Err_0)
                } else if d_max_age is Err {
                    Err(d_max_age->Err_0)
                } else if d_allow_credentials is Err {
                    Err(d_allow_credentials->Err_0)
                } else {
                    let s = Seq::empty();
                    let s = put(s, "allowOrigins"@, d_allow_origins->Ok_0);
                    let s = put(s, "allowMethods"@, d_allow_methods->Ok_0);
                    let s = put(s, "allowHeaders"@, d_allow_headers->Ok_0);
                    let s = put(s, "exposeHeaders"@, d_expose_headers->Ok_0);
                    let s = put(s, "maxAge"@, d_max_age->Ok_0);
                    let s = put(s, "allowCredentials"@, d_allow_credentials->Ok_0);
                    Ok(Json::Object(s))
                }
            },
            _ => Err(mismatch(at, Kind::Object, w)),
        }
    }

    proof fn lemma_round_trip(&self, at: Seq<char>) {
        CorsPolicy::lemma_wire_keys();
        let s = Seq::empty();
        let s = put(s, "allowOrigins"@, opt_enc(self.allow_origins));
        let s = put(s, "allowMethods"@, opt_enc(self.allow_methods));
        let s = put(s, "allowHeaders"@, opt_enc(self.allow_headers));
        let s = put(s, "exposeHeaders"@, opt_enc(self.expose_headers));
        let s = put(s, "maxAge"@, opt_enc(self.max_age));
        let s = put(s, "allowCredentials"@, opt_enc(self.allow_credentials));
        lemma_opt_field::<Vec<StringMatch>>(s, at, "allowOrigins"@, self.allow_origins);
        lemma_opt_field::<Vec<String>>(s, at, "allowMethods"@, self.allow_methods);
        lemma_opt_field::<Vec<String>>(s, at, "allowHeaders"@, self.allow_headers);
        lemma_opt_field::<Vec<String>>(s, at, "exposeHeaders"@, self.expose_headers);
        lemma_opt_field::<Duration>(s, at, "maxAge"@, self.max_age);
        lemma_opt_field::<bool>(s, at, "allowCredentials"@, self.allow_credentials);
    }

    fn encode(&self) -> (r: Value) {
        let mut es = empty_entries();
        put_opt(&mut es, "allowOrigins", &self.allow_origins);
        put_opt(&mut es, "allowMethods", &self.allow_methods);
        put_opt(&mut es, "allowHeaders", &self.allow_headers);
        put_opt(&mut es, "exposeHeaders", &self.expose_headers);
        put_opt(&mut es, "maxAge", &self.max_age);
        put_opt(&mut es, "allowCredentials", &self.allow_credentials);
        Value::Object(es)
    }

    fn decode(w: &Value, at: &str) -> (r: Result<CorsPolicy, DecodeError>) {
        match w {
            Value::Object(es) => {
                let allow_origins = match opt_field::<Vec<StringMatch>>(es, at, "allowOrigins") {
                    Ok(x) => x,
                    Err(e) => return Err(e),
                };
                let allow_methods = match opt_field::<Vec<String>>(es, at, "allowMethods") {
                    Ok(x) => x,
                    Err(e) => return Err(e),
                };
                let allow_headers = match opt_field::<Vec<String>>(es, at, "allowHeaders") {
                    Ok(x) => x,
                    Err(e) => return Err(e),
                };
                let expose_headers = match opt_field::<Vec<String>>(es, at, "exposeHeaders") {
                    Ok(x) => x,
                    Err(e) => return Err(e),
                };
                let max_age = match opt_field::<Duration>(es, at, "maxAge") {
                    Ok(x) => x,
                    Err(e) => return Err(e),
                };
                let allow_credentials = match opt_field::<bool>(es, at, "allowCredentials") {
                    Ok(x) => x,
                    Err(e) => return Err(e),
                };
                Ok(CorsPolicy { allow_origins, allow_methods, allow_headers, expose_headers, max_age, allow_credentials })
            },
            _ => Err(type_mismatch(at, Kind::Object, w)),
        }
    }
}

impl CorsPolicy {
    /// The wire keys of the type, as the proofs about its entries need them.
    proof fn lemma_wire_keys()
        ensures
            "allowOrigins"@.len() == 12,
            "allowOrigins"@[5] == 'O',
            "allowMethods"@.len() == 12,
            "allowMethods"@[5] == 'M',
            "allowHeaders"@.len() == 12,
            "allowHeaders"@[5] == 'H',
            "exposeHeaders"@.len() == 13,
            "maxAge"@.len() == 6,
            "allowCredentials"@.len() == 16,
    {
        reveal_strlit("allowOrigins");
        reveal_strlit("allowMethods");
        reveal_strlit("allowHeaders");
        reveal_strlit("exposeHeaders");
        reveal_strlit("maxAge");
        reveal_strlit("allowCredentials");
    }

    /// A field that is absent leaves no key in the wire object.
    pub proof fn lemma_absent_fields_omitted(&self)
        ensures
            self.allow_origins is None ==> !has_key(self.enc(), "allowOrigins"@),
            self.allow_methods is None ==> !has_key(self.enc(), "allowMethods"@),
            self.allow_headers is None ==> !has_key(self.enc(), "allowHeaders"@),
            self.expose_headers is None ==> !has_key(self.enc(), "exposeHeaders"@),
            self.max_age is None ==> !has_key(self.enc(), "maxAge"@),
            self.allow_credentials is None ==> !has_key(self.enc(), "allowCredentials"@),
    {
        CorsPolicy::lemma_wire_keys();
    }
}

/// Faults injected into HTTP traffic.
#[derive(Clone, Debug, PartialEq, Eq)]
pub struct HttpFaultInjection {
    /// Delay injected before forwarding.
    pub delay: Option<FaultInjectionDelay>,
    /// Abort of requests with an error code.
    pub abort: Option<FaultInjectionAbort>,
}

impl Codec for HttpFaultInjection {
    open spec fn wf(&self) -> bool {
        opt_wf(self.delay) && opt_wf(self.abort)
    }

    open spec fn enc(&self) -> Json {
        let s = Seq::empty();
        let s = put(s, "delay"@, opt_enc(self.delay));
        let s = put(s, "abort"@, opt_enc(self.abort));
        Json::Object(s)
    }

    open spec fn dec(w: Json, at: Seq<char>) -> Result<Json, Failure> {
        match w {
            Json::Object(es) => {
                let d_delay = opt_dec::<FaultInjectionDelay>(es, at, "delay"@);
                let d_abort = opt_dec::<FaultInjectionAbort>(es, at, "abort"@);
                if d_delay is Err {
                    Err(d_delay->Err_0)
                } else if d_abort is Err {
                    Err(d_abort->Err_0)
                } else {
                    let s = Seq::empty();
                    let s = put(s, "delay"@, d_delay->Ok_0);
                    let s = put(s, "abort"@, d_abort->Ok_0);
                    Ok(Json::Object(s))
                }
            },
            _ => Err(mismatch(at, Kind::Object, w)),
        }
    }

    proof fn lemma_round_trip(&self, at: Seq<char>) {
        HttpFaultInjection::lemma_wire_keys();
        let s = Seq::empty();
        let s = put(s, "delay"@, opt_enc(self.delay));
        let s = put(s, "abort"@, opt_enc(self.abort));
        lemma_opt_field::<FaultInjectionDelay>(s, at, "delay"@, self.delay);
        lemma_opt_field::<FaultInjectionAbort>(s, at, "abort"@, self.abort);
    }

    fn encode(&self) -> (r: Value) {
        let mut es = empty_entries();
        put_opt(&mut es, "delay", &self.delay);
        put_opt(&mut es, "abort", &self.abort);
        Value::Object(es)
    }

    fn decode(w: &Value, at: &str) -> (r: Result<HttpFaultInjection, DecodeError>) {
        match w {
            Value::Object(es) => {
                let delay = match opt_field::<FaultInjectionDelay>(es, at, "delay") {
                    Ok(x) => x,
                    Err(e) => return Err(e),
                };
                let abort = match opt_field::<FaultInjectionAbort>(es, at, "abort") {
                    Ok(x) => x,
                    Err(e) => return Err(e),
                };
                Ok(HttpFaultInjection { delay, abort })
            },
            _ => Err(type_mismatch(at, Kind::Object, w)),
        }
    }
}

impl HttpFaultInjection {
    /// The wire keys of the type, as the proofs about its entries need them.
    proof fn lemma_wire_keys()
        ensures
            "delay"@.len() == 5,
            "delay"@[0] == 'd',
            "abort"@.len() == 5,
            "abort"@[0] == 'a',
    {
        reveal_strlit("delay");
        reveal_strlit("abort");
    }

    /// A field that is absent leaves no key in the wire object.
    pub proof fn lemma_absent_fields_omitted(&self)
        ensures
            self.delay is None ==> !has_key(self.enc(), "delay"@),
            self.abort is None ==> !has_key(self.enc(), "abort"@),
    {
        HttpFaultInjection::lemma_wire_keys();
    }
}

/// A port of a service.
#[derive(Clone, Debug, PartialEq, Eq)]
pub struct PortSelector {
    /// A valid port number.
    pub number: Option<u32>,
}

impl Codec for PortSelector {
    open spec fn wf(&self) -> bool {
        true
    }

    open spec fn enc(&self) -> Json {
        let s = Seq::empty();
        let s = put(s, "number"@, opt_enc(self.number));
        Json::Object(s)
    }

    open spec fn dec(w: Json, at: Seq<char>) -> Result<Json, Failure> {
        match w {
            Json::Object(es) => {
                let d_number = opt_dec::<u32>(es, at, "number"@);
                if d_number is Err {
                    Err(d_number->Err_0)
                } else {
                    let s = Seq::empty();
                    let s = put(s, "number"@, d_number->Ok_0);
                    Ok(Json::Object(s))
                }
            },
            _ => Err(mismatch(at, Kind::Object, w)),
        }
    }

    proof fn lemma_round_trip(&self, at: Seq<char>) {
        PortSelector::lemma_wire_keys();
        let s = Seq::empty();
        let s = put(s, "number"@, opt_enc(self.number));
        lemma_opt_field::<u32>(s, at, "number"@, self.number);
    }

    fn encode(&self) -> (r: Value) {
        let mut es = empty_entries();
        put_opt(&mut es, "number", &self.number);
        Value::Object(es)
    }

    fn decode(w: &Value, at: &str) -> (r: Result<PortSelector, DecodeError>) {
        match w {
            Value::Object(es) => {
                let number = match opt_field::<u32>(es, at, "number") {
                    Ok(x) => x,
                    Err(e) => return Err(e),
                };
                Ok(PortSelector { number })
            },
            _ => Err(type_mismatch(at, Kind::Object, w)),
        }
    }
}

impl PortSelector {
    /// The wire keys of the type, as the proofs about its entries need them.
    proof fn lemma_wire_keys()
        ensures
            "number"@.len() == 6,
    {
        reveal_strlit("number");
    }

    /// A field that is absent leaves no key in the wire object.
    pub proof fn lemma_absent_fields_omitted(&self)
        ensures
            self.number is None ==> !has_key(self.enc(), "number"@),
    {
        PortSelector::lemma_wire_keys();
    }
}

/// Operations on the headers of a message.
#[derive(Clone, Debug, PartialEq, Eq)]
pub struct HeaderOperations {
    /// Headers that are set, replacing others of the same name.
    pub set: Option<KeyMap<String>>,
    /// Headers that are appended.
    pub add: Option<KeyMap<String>>,
    /// Headers that are removed.
    pub remove: Option<Vec<String>>,
}

impl Codec for HeaderOperations {
    open spec fn wf(&self) -> bool {
        opt_wf(self.set) && opt_wf(self.add) && opt_wf(self.remove)
    }

    open spec fn enc(&self) -> Json {
        let s = Seq::empty();
        let s = put(s, "set"@, opt_enc(self.set));
        let s = put(s, "add"@, opt_enc(self.add));
        let s = put(s, "remove"@, opt_enc(self.remove));
        Json::Object(s)
    }

    open spec fn dec(w: Json, at: Seq<char>) -> Result<Json, Failure> {
        match w {
            Json::Object(es) => {
                let d_set = opt_dec::<KeyMap<String>>(es, at, "set"@);
                let d_add = opt_dec::<KeyMap<String>>(es, at, "add"@);
                let d_remove = opt_dec::<Vec<String>>(es, at, "remove"@);
                if d_set is Err {
                    Err(d_set->Err_0)
                } else if d_add is Err {
                    Err(d_add->Err_0)
                } else if d_remove is Err {
                    Err(d_remove->Err_0)
                } else {
                    let s = Seq::empty();
                    let s = put(s, "set"@, d_set->Ok_0);
                    let s = put(s, "add"@, d_add->Ok_0);
                    let s = put(s, "remove"@, d_remove->Ok_0);
                    Ok(Json::Object(s))
                }
            },
            _ => Err(mismatch(at, Kind::Object, w)),
        }
    }

    proof fn lemma_round_trip(&self, at: Seq<char>) {
        HeaderOperations::lemma_wire_keys();
        let s = Seq::empty();
        let s = put(s, "set"@, opt_enc(self.set));
        let s = put(s, "add"@, opt_enc(self.add));
        let s = put(s, "remove"@, opt_enc(self.remove));
        lemma_opt_field::<KeyMap<String>>(s, at, "set"@, self.set);
        lemma_opt_field::<KeyMap<String>>(s, at, "add"@, self.add);
        lemma_opt_field::<Vec<String>>(s, at, "remove"@, self.remove);
    }

    fn encode(&self) -> (r: Value) {
        let mut es = empty_entries();
        put_opt(&mut es, "set", &self.set);
        put_opt(&mut es, "add", &self.add);
        put_opt(&mut es, "remove", &self.remove);
        Value::Object(es)
    }

    fn decode(w: &Value, at: &str) -> (r: Result<HeaderOperations, DecodeError>) {
        match w {
            Value::Object(es) => {
                let set = match opt_field::<KeyMap<String>>(es, at, "set") {
                    Ok(x) => x,
                    Err(e) => return Err(e),
                };
                let add = match opt_field::<KeyMap<String>>(es, at, "add") {
                    Ok(x) => x,
                    Err(e) => return Err(e),
                };
                let remove = match opt_field::<Vec<String>>(es, at, "remove") {
                    Ok(x) => x,
                    Err(e) => return Err(e),
                };
                Ok(HeaderOperations { set, add, remove })
            },
            _ => Err(type_mismatch(at, Kind::Object, w)),
        }
    }
}

impl HeaderOperations {
    /// The wire keys of the type, as the proofs about its entries need them.
    proof fn lemma_wire_keys()
        ensures
            "set"@.len() == 3,
            "set"@[0] == 's',
            "add"@.len() == 3,
            "add"@[0] == 'a',
            "remove"@.len() == 6,
    {
        reveal_strlit("set");
        reveal_strlit("add");
        reveal_strlit("remove");
    }

    /// A field that is absent leaves no key in the wire object.
    pub proof fn lemma_absent_fields_omitted(&self)
        ensures
            self.set is None ==> !has_key(self.enc(), "set"@),
            self.add is None ==> !has_key(self.enc(), "add"@),
            self.remove is None ==> !has_key(self.enc(), "remove"@),
    {
        HeaderOperations::lemma_wire_keys();
    }
}

/// A delay injected before a request is forwarded.
#[derive(Clone, Debug, PartialEq, Eq)]
pub struct FaultInjectionDelay {
    /// The delay.
    pub fixed_delay: Duration,
    /// Share of the requests that are delayed.
    pub percentage: Option<Percent>,
    /// Percentage of the requests that are delayed, as an integer.
    pub percent: Option<i32>,
}

impl Codec for FaultInjectionDelay {
    open spec fn wf(&self) -> bool {
        true
    }

    open spec fn enc(&self) -> Json {
        let s = Seq::empty();
        let s = s.push(("fixedDelay"@, self.fixed_delay.enc()));
        let s = put(s, "percentage"@, opt_enc(self.percentage));
        let s = put(s, "percent"@, opt_enc(self.percent));
        Json::Object(s)
    }

    open spec fn dec(w: Json, at: Seq<char>) -> Result<Json, Failure> {
        match w {
            Json::Object(es) => {
                let d_fixed_delay = req_dec::<Duration>(es, at, "fixedDelay"@);
                let d_percentage = opt_dec::<Percent>(es, at, "percentage"@);
                let d_percent = opt_dec::<i32>(es, at, "percent"@);
                if d_fixed_delay is Err {
                    Err(d_fixed_delay->Err_0)
                } else if d_percentage is Err {
                    Err(d_percentage->Err_0)
                } else if d_percent is Err {
                    Err(d_percent->Err_0)
                } else {
                    let s = Seq::empty();
                    let s = s.push(("fixedDelay"@, d_fixed_delay->Ok_0));
                    let s = put(s, "percentage"@, d_percentage->Ok_0);
                    let s = put(s, "percent"@, d_percent->Ok_0);
                    Ok(Json::Object(s))
                }
            },
            _ => Err(mismatch(at, Kind::Object, w)),
        }
    }

    proof fn lemma_round_trip(&self, at: Seq<char>) {
        FaultInjectionDelay::lemma_wire_keys();
        let s = Seq::empty();
        let s = s.push(("fixedDelay"@, self.fixed_delay.enc()));
        let s = put(s, "percentage"@, opt_enc(self.percentage));
        let s = put(s, "percent"@, opt_enc(self.percent));
        lemma_req_field::<Duration>(s, at, "fixedDelay"@, self.fixed_delay);
        lemma_opt_field::<Percent>(s, at, "percentage"@, self.percentage);
        lemma_opt_field::<i32>(s, at, "percent"@, self.percent);
    }

    fn encode(&self) -> (r: Value) {
        let mut es = empty_entries();
        put_req(&mut es, "fixedDelay", self.fixed_delay.encode());
        put_opt(&mut es, "percentage", &self.percentage);
        put_opt(&mut es, "percent", &self.percent);
        Value::Object(es)
    }

    fn decode(w: &Value, at: &str) -> (r: Result<FaultInjectionDelay, DecodeError>) {
        match w {
            Value::Object(es) => {
                let fixed_delay = match req_field::<Duration>(es, at, "fixedDelay") {
                    Ok(x) => x,
                    Err(e) => return Err(e),
                };
                let percentage = match opt_field::<Percent>(es, at, "percentage") {
                    Ok(x) => x,
                    Err(e) => return Err(e),
                };
                let percent = match opt_field::<i32>(es, at, "percent") {
                    Ok(x) => x,
                    Err(e) => return Err(e),
                };
                Ok(FaultInjectionDelay { fixed_delay, percentage, percent })
            },
            _ => Err(type_mismatch(at, Kind::Object, w)),
        }
    }
}

impl FaultInjectionDelay {
    /// The wire keys of the type, as the proofs about its entries need them.
    proof fn lemma_wire_keys()
        ensures
            "fixedDelay"@.len() == 10,
            "fixedDelay"@[0] == 'f',
            "percentage"@.len() == 10,
            "percentage"@[0] == 'p',
            "percent"@.len() == 7,
    {
        reveal_strlit("fixedDelay");
        reveal_strlit("percentage");
        reveal_strlit("percent");
    }

    /// A field that is absent leaves no key in the wire object.
    pub proof fn lemma_absent_fields_omitted(&self)
        ensures
            self.percentage is None ==> !has_key(self.enc(), "percentage"@),
            self.percent is None ==> !has_key(self.enc(), "percent"@),
    {
        FaultInjectionDelay::lemma_wire_keys();
    }
}

/// An abort of a request with an error code.
#[derive(Clone, Debug, PartialEq, Eq)]
pub struct FaultInjectionAbort {
    /// HTTP status code returned.
    pub http_status: i32,
    /// Share of the requests that are aborted.
    pub percentage: Option<Percent>,
}

impl Codec for FaultInjectionAbort {
    open spec fn wf(&self) -> bool {
        true
    }

    open spec fn enc(&self) -> Json {
        let s = Seq::empty();
        let s = s.push(("httpStatus"@, self.http_status.enc()));
        let s = put(s, "percentage"@, opt_enc(self.percentage));
        Json::Object(s)
    }

    open spec fn dec(w: Json, at: Seq<char>) -> Result<Json, Failure> {
        match w {
            Json::Object(es) => {
                let d_http_status = req_dec::<i32>(es, at, "httpStatus"@);
                let d_percentage = opt_dec::<Percent>(es, at, "percentage"@);
                if d_http_status is Err {
                    Err(d_http_status->Err_0)
                } else if d_percentage is Err {
                    Err(d_percentage->Err_0)
                } else {
                    let s = Seq::empty();
                    let s = s.push(("httpStatus"@, d_http_status->Ok_0));
                    let s = put(s, "percentage"@, d_percentage->Ok_0);
                    Ok(Json::Object(s))
                }
            },
            _ => Err(mismatch(at, Kind::Object, w)),
        }
    }

    proof fn lemma_round_trip(&self, at: Seq<char>) {
        FaultInjectionAbort::lemma_wire_keys();
        let s = Seq::empty();
        let s = s.push(("httpStatus"@, self.http_status.enc()));
        let s = put(s, "percentage"@, opt_enc(self.percentage));
        lemma_req_field::<i32>(s, at, "httpStatus"@, self.http_status);
        lemma_opt_field::<Percent>(s, at, "percentage"@, self.percentage);
    }

    fn encode(&self) -> (r: Value) {
        let mut es = empty_entries();
        put_req(&mut es, "httpStatus", self.http_status.encode());
        put_opt(&mut es, "percentage", &self.percentage);
        Value::Object(es)
    }

    fn decode(w: &Value, at: &str) -> (r: Result<FaultInjectionAbort, DecodeError>) {
        match w {
            Value::Object(es) => {
                let http_status = match req_field::<i32>(es, at, "httpStatus") {
                    Ok(x) => x,
                    Err(e) => return Err(e),
                };
                let percentage = match opt_field::<Percent>(es, at, "percentage") {
                    Ok(x) => x,
                    Err(e) => return Err(e),
                };
                Ok(FaultInjectionAbort { http_status, percentage })
            },
            _ => Err(type_mismatch(at, Kind::Object, w)),
        }
    }
}

impl FaultInjectionAbort {
    /// The wire keys of the type, as the proofs about its entries need them.
    proof fn lemma_wire_keys()
        ensures
            "httpStatus"@.len() == 10,
            "httpStatus"@[0] == 'h',
            "percentage"@.len() == 10,
            "percentage"@[0] == 'p',
    {
        reveal_strlit("httpStatus");
        reveal_strlit("percentage");
    }

    /// A field that is absent leaves no key in the wire object.
    pub proof fn lemma_absent_fields_omitted(&self)
        ensures
            self.percentage is None ==> !has_key(self.enc(), "percentage"@),
    {
        FaultInjectionAbort::lemma_wire_keys();
    }
}

/// How the port of a redirect is chosen.
#[allow(non_camel_case_types)]
#[derive(Clone, Copy, Debug, PartialEq, Eq)]
pub enum RedirectPortSelection {
    /// The default port of the protocol.
    FromProtocolDefault,
    /// The port of the request.
    FromRequestPort,
}

impl RedirectPortSelection {
    /// The wire tag of the variant.
    pub open spec fn tag(&self) -> Seq<char> {
        match self {
            RedirectPortSelection::FromProtocolDefault => "FROM_PROTOCOL_DEFAULT"@,
            RedirectPortSelection::FromRequestPort => "FROM_REQUEST_PORT"@,
        }
    }
}

impl Codec for RedirectPortSelection {
    open spec fn wf(&self) -> bool {
        true
    }

    open spec fn enc(&self) -> Json {
        Json::Str(self.tag())
    }

    open spec fn dec(w: Json, at: Seq<char>) -> Result<Json, Failure> {
        match w {
            Json::Str(s) => if s == "FROM_PROTOCOL_DEFAULT"@ || s == "FROM_REQUEST_PORT"@ {
                Ok(w)
            } else {
                Err(Failure::UnknownVariant { enum_name: "RedirectPortSelection"@, tag: s })
            },
            _ => Err(mismatch(at, Kind::String, w)),
        }
    }

    proof fn lemma_round_trip(&self, at: Seq<char>) {
    }

    fn encode(&self) -> (r: Value) {
        let tag = match self {
            RedirectPortSelection::FromProtocolDefault => "FROM_PROTOCOL_DEFAULT",
            RedirectPortSelection::FromRequestPort => "FROM_REQUEST_PORT",
        };
        Value::Str(String::from_str(tag))
    }

    fn decode(w: &Value, at: &str) -> (r: Result<RedirectPortSelection, DecodeError>) {
        match w {
            Value::Str(s) => {
                if is_tag(s, "FROM_PROTOCOL_DEFAULT") {
                    Ok(RedirectPortSelection::FromProtocolDefault)
                } else if is_tag(s, "FROM_REQUEST_PORT") {
                    Ok(RedirectPortSelection::FromRequestPort)
                } else {
                    Err(DecodeError::UnknownVariant { enum_name: String::from_str("RedirectPortSelection"), tag: s.clone() })
                }
            },
            _ => Err(type_mismatch(at, Kind::String, w)),
        }
    }
}

/// A share of traffic, in percent, as a binary64 number kept by its IEEE-754 bit pattern.
///
/// The codec passes it through unchanged: no range check and no rounding.
#[derive(Clone, Copy, Debug, PartialEq, Eq)]
pub struct Percent {
    pub bits: u64,
}

impl Codec for Percent {
    open spec fn wf(&self) -> bool {
        true
    }

    open spec fn enc(&self) -> Json {
        Json::Real(self.bits)
    }

    open spec fn dec(w: Json, at: Seq<char>) -> Result<Json, Failure> {
        match w {
            Json::Real(_) => Ok(w),
            _ => Err(mismatch(at, Kind::Real, w)),
        }
    }

    proof fn lemma_round_trip(&self, at: Seq<char>) {
    }

    fn encode(&self) -> (r: Value) {
        Value::Real(self.bits)
    }

    fn decode(w: &Value, at: &str) -> (r: Result<Percent, DecodeError>) {
        match w {
            Value::Real(b) => Ok(Percent { bits: *b }),
            _ => Err(type_mismatch(at, Kind::Real, w)),
        }
    }
}

} // verus!
