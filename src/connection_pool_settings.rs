//! Settings of the connection pool to an upstream host.
use vstd::prelude::*;
use crate::codec::{
    Codec, opt_dec, opt_enc, opt_field, opt_wf, put_opt, empty_entries, lemma_opt_field, has_key,
    is_tag,
};
use crate::error::{DecodeError, Failure, mismatch, type_mismatch};
use crate::wire::{Json, Kind, Value, put, lemma_lookup_push, lemma_lookup_put, lemma_object_model};
use crate::duration::Duration;

verus! {

broadcast use {lemma_lookup_push, lemma_lookup_put, lemma_object_model, vstd::string::group_string_axioms};

/// Policy for upgrading HTTP/1.1 connections to HTTP/2.
#[allow(non_camel_case_types)]
#[derive(Clone, Copy, Debug, PartialEq, Eq)]
pub enum H2UpgradePolicy {
    /// Use the global default.
    DEFAULT,
    /// Do not upgrade the connection to HTTP/2.
    DO_NOT_UPGRADE,
    /// Upgrade the connection to HTTP/2.
    UPGRADE,
}

impl H2UpgradePolicy {
    /// The wire tag of the variant.
    pub open spec fn tag(&self) -> Seq<char> {
        match self {
            H2UpgradePolicy::DEFAULT => "DEFAULT"@,
            H2UpgradePolicy::DO_NOT_UPGRADE => "DO_NOT_UPGRADE"@,
            H2UpgradePolicy::UPGRADE => "UPGRADE"@,
        }
    }
}

impl Codec for H2UpgradePolicy {
    open spec fn wf(&self) -> bool {
        true
    }

    open spec fn enc(&self) -> Json {
        Json::Str(self.tag())
    }

    open spec fn dec(w: Json, at: Seq<char>) -> Result<Json, Failure> {
        match w {
            Json::Str(s) => if s == "DEFAULT"@ || s == "DO_NOT_UPGRADE"@ || s == "UPGRADE"@ {
                Ok(w)
            } else {
                Err(Failure::UnknownVariant { enum_name: "H2UpgradePolicy"@, tag: s })
            },
            _ => Err(mismatch(at, Kind::String, w)),
        }
    }

    proof fn lemma_round_trip(&self, at: Seq<char>) {
    }

    fn encode(&self) -> (r: Value) {
        let tag = match self {
            H2UpgradePolicy::DEFAULT => "DEFAULT",
            H2UpgradePolicy::DO_NOT_UPGRADE => "DO_NOT_UPGRADE",
            H2UpgradePolicy::UPGRADE => "UPGRADE",
        };
        Value::Str(String::from_str(tag))
    }

    fn decode(w: &Value, at: &str) -> (r: Result<H2UpgradePolicy, DecodeError>) {
        match w {
            Value::Str(s) => {
                if is_tag(s, "DEFAULT") {
                    Ok(H2UpgradePolicy::DEFAULT)
                } else if is_tag(s, "DO_NOT_UPGRADE") {
                    Ok(H2UpgradePolicy::DO_NOT_UPGRADE)
                } else if is_tag(s, "UPGRADE") {
                    Ok(H2UpgradePolicy::UPGRADE)
                } else {
                    Err(DecodeError::UnknownVariant { enum_name: String::from_str("H2UpgradePolicy"), tag: s.clone() })
                }
            },
            _ => Err(type_mismatch(at, Kind::String, w)),
        }
    }
}

/// TCP keepalive.
#[derive(Clone, Debug, PartialEq, Eq)]
pub struct TcpKeepalive {
    /// Keepalive probes sent without response before the connection is dropped.
    pub probes: Option<u32>,
    /// Idle time before keepalive probes start.
    pub time: Option<Duration>,
    /// Time between keepalive probes.
    pub interval: Option<Duration>,
}

impl Codec for TcpKeepalive {
    open spec fn wf(&self) -> bool {
        true
    }

    open spec fn enc(&self) -> Json {
        let s = Seq::empty();
        let s = put(s, "probes"@, opt_enc(self.probes));
        let s = put(s, "time"@, opt_enc(self.time));
        let s = put(s, "interval"@, opt_enc(self.interval));
        Json::Object(s)
    }

    open spec fn dec(w: Json, at: Seq<char>) -> Result<Json, Failure> {
        match w {
            Json::Object(es) => {
                let d_probes = opt_dec::<u32>(es, at, "probes"@);
                let d_time = opt_dec::<Duration>(es, at, "time"@);
                let d_interval = opt_dec::<Duration>(es, at, "interval"@);
                if d_probes is Err {
                    Err(d_probes->Err_0)
                } else if d_time is Err {
                    Err(d_time->Err_0)
                } else if d_interval is Err {
                    Err(d_interval->Err_0)
                } else {
                    let s = Seq::empty();
                    let s = put(s, "probes"@, d_probes->Ok_0);
                    let s = put(s, "time"@, d_time->Ok_0);
                    let s = put(s, "interval"@, d_interval->Ok_0);
                    Ok(Json::Object(s))
                }
            },
            _ => Err(mismatch(at, Kind::Object, w)),
        }
    }

    proof fn lemma_round_trip(&self, at: Seq<char>) {
        TcpKeepalive::lemma_wire_keys();
        let s = Seq::empty();
        let s = put(s, "probes"@, opt_enc(self.probes));
        let s = put(s, "time"@, opt_enc(self.time));
        let s = put(s, "interval"@, opt_enc(self.interval));
        lemma_opt_field::<u32>(s, at, "probes"@, self.probes);
        lemma_opt_field::<Duration>(s, at, "time"@, self.time);
        lemma_opt_field::<Duration>(s, at, "interval"@, self.interval);
    }

    fn encode(&self) -> (r: Value) {
        let mut es = empty_entries();
        put_opt(&mut es, "probes", &self.probes);
        put_opt(&mut es, "time", &self.time);
        put_opt(&mut es, "interval", &self.interval);
        Value::Object(es)
    }

    fn decode(w: &Value, at: &str) -> (r: Result<TcpKeepalive, DecodeError>) {
        match w {
            Value::Object(es) => {
                let probes = match opt_field::<u32>(es, at, "probes") {
                    Ok(x) => x,
                    Err(e) => return Err(e),
                };
                let time = match opt_field::<Duration>(es, at, "time") {
                    Ok(x) => x,
                    Err(e) => return Err(e),
                };
                let interval = match opt_field::<Duration>(es, at, "interval") {
                    Ok(x) => x,
                    Err(e) => return Err(e),
                };
                Ok(TcpKeepalive { probes, time, interval })
            },
            _ => Err(type_mismatch(at, Kind::Object, w)),
        }
    }
}

impl TcpKeepalive {
    /// The wire keys of the type, as the proofs about its entries need them.
    proof fn lemma_wire_keys()
        ensures
            "probes"@.len() == 6,
            "time"@.len() == 4,
            "interval"@.len() == 8,
    {
        reveal_strlit("probes");
        reveal_strlit("time");
        reveal_strlit("interval");
    }

    /// A field that is absent leaves no key in the wire object.
    pub proof fn lemma_absent_fields_omitted(&self)
        ensures
            self.probes is None ==> !has_key(self.enc(), "probes"@),
            self.time is None ==> !has_key(self.enc(), "time"@),
            self.interval is None ==> !has_key(self.enc(), "interval"@),
    {
        TcpKeepalive::lemma_wire_keys();
    }
}

/// Settings common to both HTTP and TCP upstream connections.
#[derive(Clone, Debug, PartialEq, Eq)]
pub struct TCPSettings {
    /// Maximum number of HTTP/1 or TCP connections to a destination host.
    pub max_connections: Option<i32>,
    /// TCP connection timeout.
    pub connect_timeout: Option<Duration>,
    /// SO_KEEPALIVE settings of the socket.
    pub tcp_keepalive: Option<TcpKeepalive>,
}

impl Codec for TCPSettings {
    open spec fn wf(&self) -> bool {
        opt_wf(self.tcp_keepalive)
    }

    open spec fn enc(&self) -> Json {
        let s = Seq::empty();
        let s = put(s, "maxConnections"@, opt_enc(self.max_connections));
        let s = put(s, "connectTimeout"@, opt_enc(self.connect_timeout));
        let s = put(s, "tcpKeepalive"@, opt_enc(self.tcp_keepalive));
        Json::Object(s)
    }

    open spec fn dec(w: Json, at: Seq<char>) -> Result<Json, Failure> {
        match w {
            Json::Object(es) => {
                let d_max_connections = opt_dec::<i32>(es, at, "maxConnections"@);
                let d_connect_timeout = opt_dec::<Duration>(es, at, "connectTimeout"@);
                let d_tcp_keepalive = opt_dec::<TcpKeepalive>(es, at, "tcpKeepalive"@);
                if d_max_connections is Err {
                    Err(d_max_connections->Err_0)
                } else if d_connect_timeout is Err {
                    Err(d_connect_timeout->Err_0)
                } else if d_tcp_keepalive is Err {
                    Err(d_tcp_keepalive->Err_0)
                } else {
                    let s = Seq::empty();
                    let s = put(s, "maxConnections"@, d_max_connections->Ok_0);
                    let s = put(s, "connectTimeout"@, d_connect_timeout->Ok_0);
                    let s = put(s, "tcpKeepalive"@, d_tcp_keepalive->Ok_0);
                    Ok(Json::Object(s))
                }
            },
            _ => Err(mismatch(at, Kind::Object, w)),
        }
    }

    proof fn lemma_round_trip(&self, at: Seq<char>) {
        TCPSettings::lemma_wire_keys();
        let s = Seq::empty();
        let s = put(s, "maxConnections"@, opt_enc(self.max_connections));
        let s = put(s, "connectTimeout"@, opt_enc(self.connect_timeout));
        let s = put(s, "tcpKeepalive"@, opt_enc(self.tcp_keepalive));
        lemma_opt_field::<i32>(s, at, "maxConnections"@, self.max_connections);
        lemma_opt_field::<Duration>(s, at, "connectTimeout"@, self.connect_timeout);
        lemma_opt_field::<TcpKeepalive>(s, at, "tcpKeepalive"@, self.tcp_keepalive);
    }

    fn encode(&self) -> (r: Value) {
        let mut es = empty_entries();
        put_opt(&mut es, "maxConnections", &self.max_connections);
        put_opt(&mut es, "connectTimeout", &self.connect_timeout);
        put_opt(&mut es, "tcpKeepalive", &self.tcp_keepalive);
        Value::Object(es)
    }

    fn decode(w: &Value, at: &str) -> (r: Result<TCPSettings, DecodeError>) {
        match w {
            Value::Object(es) => {
                let max_connections = match opt_field::<i32>(es, at, "maxConnections") {
                    Ok(x) => x,
                    Err(e) => return Err(e),
                };
                let connect_timeout = match opt_field::<Duration>(es, at, "connectTimeout") {
                    Ok(x) => x,
                    Err(e) => return Err(e),
                };
                let tcp_keepalive = match opt_field::<TcpKeepalive>(es, at, "tcpKeepalive") {
                    Ok(x) => x,
                    Err(e) => return Err(e),
                };
                Ok(TCPSettings { max_connections, connect_timeout, tcp_keepalive })
            },
            _ => Err(type_mismatch(at, Kind::Object, w)),
        }
    }
}

impl TCPSettings {
    /// The wire keys of the type, as the proofs about its entries need them.
    proof fn lemma_wire_keys()
        ensures
            "maxConnections"@.len() == 14,
            "maxConnections"@[0] == 'm',
            "connectTimeout"@.len() == 14,
            "connectTimeout"@[0] == 'c',
            "tcpKeepalive"@.len() == 12,
    {
        reveal_strlit("maxConnections");
        reveal_strlit("connectTimeout");
        reveal_strlit("tcpKeepalive");
    }

    /// A field that is absent leaves no key in the wire object.
    pub proof fn lemma_absent_fields_omitted(&self)
        ensures
            self.max_connections is None ==> !has_key(self.enc(), "maxConnections"@),
            self.connect_timeout is None ==> !has_key(self.enc(), "connectTimeout"@),
            self.tcp_keepalive is None ==> !has_key(self.enc(), "tcpKeepalive"@),
    {
        TCPSettings::lemma_wire_keys();
    }
}

/// Settings applicable to HTTP/1.1, HTTP/2 and gRPC connections.
#[derive(Clone, Debug, PartialEq, Eq)]
pub struct HTTPSettings {
    /// Maximum number of pending HTTP requests to a destination.
    pub http1_max_pending_requests: Option<i32>,
    /// Maximum number of requests to a backend.
    pub http2_max_requests: Option<i32>,
    /// Maximum number of requests per connection to a backend.
    pub max_requests_per_connection: Option<i32>,
    /// Maximum number of outstanding retries to all hosts of a cluster.
    pub max_retries: Option<i32>,
    /// Idle timeout of upstream connection pool connections.
    pub idle_timeout: Option<Duration>,
    /// Whether HTTP/1.1 connections are upgraded to HTTP/2.
    pub h2_upgrade_policy: Option<H2UpgradePolicy>,
    /// Whether the client protocol is kept towards the backend.
    pub use_client_protocol: Option<bool>,
}

impl Codec for HTTPSettings {
    open spec fn wf(&self) -> bool {
        true
    }

    open spec fn enc(&self) -> Json {
        let s = Seq::empty();
        let s = put(s, "http1MaxPendingRequests"@, opt_enc(self.http1_max_pending_requests));
        let s = put(s, "http2MaxRequests"@, opt_enc(self.http2_max_requests));
        let s = put(s, "maxRequestsPerConnection"@, opt_enc(self.max_requests_per_connection));
        let s = put(s, "maxRetries"@, opt_enc(self.max_retries));
        let s = put(s, "idleTimeout"@, opt_enc(self.idle_timeout));
        let s = put(s, "h2UpgradePolicy"@, opt_enc(self.h2_upgrade_policy));
        let s = put(s, "useClientProtocol"@, opt_enc(self.use_client_protocol));
        Json::Object(s)
    }

    open spec fn dec(w: Json, at: Seq<char>) -> Result<Json, Failure> {
        match w {
            Json::Object(es) => {
                let d_http1_max_pending_requests = opt_dec::<i32>(es, at, "http1MaxPendingRequests"@);
                let d_http2_max_requests = opt_dec::<i32>(es, at, "http2MaxRequests"@);
                let d_max_requests_per_connection = opt_dec::<i32>(es, at, "maxRequestsPerConnection"@);
                let d_max_retries = opt_dec::<i32>(es, at, "maxRetries"@);
                let d_idle_timeout = opt_dec::<Duration>(es, at, "idleTimeout"@);
                let d_h2_upgrade_policy = opt_dec::<H2UpgradePolicy>(es, at, "h2UpgradePolicy"@);
                let d_use_client_protocol = opt_dec::<bool>(es, at, "useClientProtocol"@);
                if d_http1_max_pending_requests is Err {
                    Err(d_http1_max_pending_requests->Err_0)
                } else if d_http2_max_requests is Err {
                    Err(d_http2_max_requests->Err_0)
                } else if d_max_requests_per_connection is Err {
                    Err(d_max_requests_per_connection->Err_0)
                } else if d_max_retries is Err {
                    Err(d_max_retries->Err_0)
                } else if d_idle_timeout is Err {
                    Err(d_idle_timeout->Err_0)
                } else if d_h2_upgrade_policy is Err {
                    Err(d_h2_upgrade_policy->Err_0)
                } else if d_use_client_protocol is Err {
                    Err(d_use_client_protocol->Err_0)
                } else {
                    let s = Seq::empty();
                    let s = put(s, "http1MaxPendingRequests"@, d_http1_max_pending_requests->Ok_0);
                    let s = put(s, "http2MaxRequests"@, d_http2_max_requests->Ok_0);
                    let s = put(s, "maxRequestsPerConnection"@, d_max_requests_per_connection->Ok_0);
                    let s = put(s, "maxRetries"@, d_max_retries->Ok_0);
                    let s = put(s, "idleTimeout"@, d_idle_timeout->Ok_0);
                    let s = put(s, "h2UpgradePolicy"@, d_h2_upgrade_policy->Ok_0);
                    let s = put(s, "useClientProtocol"@, d_use_client_protocol->Ok_0);
                    Ok(Json::Object(s))
                }
            },
            _ => Err(mismatch(at, Kind::Object, w)),
        }
    }

    proof fn lemma_round_trip(&self, at: Seq<char>) {
        HTTPSettings::lemma_wire_keys();
        let s = Seq::empty();
        let s = put(s, "http1MaxPendingRequests"@, opt_enc(self.http1_max_pending_requests));
        let s = put(s, "http2MaxRequests"@, opt_enc(self.http2_max_requests));
        let s = put(s, "maxRequestsPerConnection"@, opt_enc(self.max_requests_per_connection));
        let s = put(s, "maxRetries"@, opt_enc(self.max_retries));
        let s = put(s, "idleTimeout"@, opt_enc(self.idle_timeout));
        let s = put(s, "h2UpgradePolicy"@, opt_enc(self.h2_upgrade_policy));
        let s = put(s, "useClientProtocol"@, opt_enc(self.use_client_protocol));
        lemma_opt_field::<i32>(s, at, "http1MaxPendingRequests"@, self.http1_max_pending_requests);
        lemma_opt_field::<i32>(s, at, "http2MaxRequests"@, self.http2_max_requests);
        lemma_opt_field::<i32>(s, at, "maxRequestsPerConnection"@, self.max_requests_per_connection);
        lemma_opt_field::<i32>(s, at, "maxRetries"@, self.max_retries);
        lemma_opt_field::<Duration>(s, at, "idleTimeout"@, self.idle_timeout);
        lemma_opt_field::<H2UpgradePolicy>(s, at, "h2UpgradePolicy"@, self.h2_upgrade_policy);
        lemma_opt_field::<bool>(s, at, "useClientProtocol"@, self.use_client_protocol);
    }

    fn encode(&self) -> (r: Value) {
        let mut es = empty_entries();
        put_opt(&mut es, "http1MaxPendingRequests", &self.http1_max_pending_requests);
        put_opt(&mut es, "http2MaxRequests", &self.http2_max_requests);
        put_opt(&mut es, "maxRequestsPerConnection", &self.max_requests_per_connection);
        put_opt(&mut es, "maxRetries", &self.max_retries);
        put_opt(&mut es, "idleTimeout", &self.idle_timeout);
        put_opt(&mut es, "h2UpgradePolicy", &self.h2_upgrade_policy);
        put_opt(&mut es, "useClientProtocol", &self.use_client_protocol);
        Value::Object(es)
    }

    fn decode(w: &Value, at: &str) -> (r: Result<HTTPSettings, DecodeError>) {
        match w {
            Value::Object(es) => {
                let http1_max_pending_requests = match opt_field::<i32>(es, at, "http1MaxPendingRequests") {
                    Ok(x) => x,
                    Err(e) => return Err(e),
                };
                let http2_max_requests = match opt_field::<i32>(es, at, "http2MaxRequests") {
                    Ok(x) => x,
                    Err(e) => return Err(e),
                };
                let max_requests_per_connection = match opt_field::<i32>(es, at, "maxRequestsPerConnection") {
                    Ok(x) => x,
                    Err(e) => return Err(e),
                };
                let max_retries = match opt_field::<i32>(es, at, "maxRetries") {
                    Ok(x) => x,
                    Err(e) => return Err(e),
                };
                let idle_timeout = match opt_field::<Duration>(es, at, "idleTimeout") {
                    Ok(x) => x,
                    Err(e) => return Err(e),
                };
                let h2_upgrade_policy = match opt_field::<H2UpgradePolicy>(es, at, "h2UpgradePolicy") {
                    Ok(x) => x,
                    Err(e) => return Err(e),
                };
                let use_client_protocol = match opt_field::<bool>(es, at, "useClientProtocol") {
                    Ok(x) => x,
                    Err(e) => return Err(e),
                };
                Ok(HTTPSettings { http1_max_pending_requests, http2_max_requests, max_requests_per_connection, max_retries, idle_timeout, h2_upgrade_policy, use_client_protocol })
            },
            _ => Err(type_mismatch(at, Kind::Object, w)),
        }
    }
}

impl HTTPSettings {
    /// The wire keys of the type, as the proofs about its entries need them.
    proof fn lemma_wire_keys()
        ensures
            "http1MaxPendingRequests"@.len() == 23,
            "http2MaxRequests"@.len() == 16,
            "maxRequestsPerConnection"@.len() == 24,
            "maxRetries"@.len() == 10,
            "idleTimeout"@.len() == 11,
            "h2UpgradePolicy"@.len() == 15,
            "useClientProtocol"@.len() == 17,
    {
        reveal_strlit("http1MaxPendingRequests");
        reveal_strlit("http2MaxRequests");
        reveal_strlit("maxRequestsPerConnection");
        reveal_strlit("maxRetries");
        reveal_strlit("idleTimeout");
        reveal_strlit("h2UpgradePolicy");
        reveal_strlit("useClientProtocol");
    }

    /// A field that is absent leaves no key in the wire object.
    pub proof fn lemma_absent_fields_omitted(&self)
        ensures
            self.http1_max_pending_requests is None ==> !has_key(self.enc(), "http1MaxPendingRequests"@),
            self.http2_max_requests is None ==> !has_key(self.enc(), "http2MaxRequests"@),
            self.max_requests_per_connection is None ==> !has_key(self.enc(), "maxRequestsPerConnection"@),
            self.max_retries is None ==> !has_key(self.enc(), "maxRetries"@),
            self.idle_timeout is None ==> !has_key(self.enc(), "idleTimeout"@),
            self.h2_upgrade_policy is None ==> !has_key(self.enc(), "h2UpgradePolicy"@),
            self.use_client_protocol is None ==> !has_key(self.enc(), "useClientProtocol"@),
    {
        HTTPSettings::lemma_wire_keys();
    }
}

} // verus!
