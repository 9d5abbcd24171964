//! Traffic policies of specific ports.
use vstd::prelude::*;
use crate::codec::{
    Codec, opt_dec, opt_enc, opt_field, opt_wf, put_opt, empty_entries, lemma_opt_field, has_key,
};
use crate::error::{DecodeError, Failure, mismatch, type_mismatch};
use crate::wire::{Json, Kind, Value, put, lemma_lookup_push, lemma_lookup_put, lemma_object_model};
use crate::destination_rule::{
    ClientTLSSettings, ConnectionPoolSettings, LoadBalancerSettings, OutlierDetection,
};
use crate::virtual_service::PortSelector;

verus! {

broadcast use {lemma_lookup_push, lemma_lookup_put, lemma_object_model, vstd::string::group_string_axioms};

/// Traffic policies that apply to a specific port of the service.
#[derive(Clone, Debug, PartialEq, Eq)]
pub struct PortTrafficPolicy {
    /// The port of the destination service.
    pub port: Option<PortSelector>,
    /// Settings of the load balancer algorithms.
    pub load_balancer: Option<LoadBalancerSettings>,
    /// Settings of the volume of connections to an upstream service.
    pub connection_pool: Option<ConnectionPoolSettings>,
    /// Settings of the eviction of unhealthy hosts.
    pub outlier_detection: Option<OutlierDetection>,
    /// TLS settings of connections to the upstream service.
    pub tls: Option<ClientTLSSettings>,
}

impl Codec for PortTrafficPolicy {
    open spec fn wf(&self) -> bool {
        opt_wf(self.port) && opt_wf(self.load_balancer) && opt_wf(self.connection_pool) && opt_wf(self.outlier_detection) && opt_wf(self.tls)
    }

    open spec fn enc(&self) -> Json {
        let s = Seq::empty();
        let s = put(s, "port"@, opt_enc(self.port));
        let s = put(s, "loadBalancer"@, opt_enc(self.load_balancer));
        let s = put(s, "connectionPool"@, opt_enc(self.connection_pool));
        let s = put(s, "outlierDetection"@, opt_enc(self.outlier_detection));
        let s = put(s, "tls"@, opt_enc(self.tls));
        Json::Object(s)
    }

    open spec fn dec(w: Json, at: Seq<char>) -> Result<Json, Failure> {
        match w {
            Json::Object(es) => {
                let d_port = opt_dec::<PortSelector>(es, at, "port"@);
                let d_load_balancer = opt_dec::<LoadBalancerSettings>(es, at, "loadBalancer"@);
                let d_connection_pool = opt_dec::<ConnectionPoolSettings>(es, at, "connectionPool"@);
                let d_outlier_detection = opt_dec::<OutlierDetection>(es, at, "outlierDetection"@);
                let d_tls = opt_dec::<ClientTLSSettings>(es, at, "tls"@);
                if d_port is Err {
                    Err(d_port->Err_0)
                } else if d_load_balancer is Err {
                    Err(d_load_balancer->Err_0)
                } else if d_connection_pool is Err {
                    Err(d_connection_pool->Err_0)
                } else if d_outlier_detection is Err {
                    Err(d_outlier_detection->Err_0)
                } else if d_tls is Err {
                    Err(d_tls->Err_0)
                } else {
                    let s = Seq::empty();
                    let s = put(s, "port"@, d_port->Ok_0);
                    let s = put(s, "loadBalancer"@, d_load_balancer->Ok_0);
                    let s = put(s, "connectionPool"@, d_connection_pool->Ok_0);
                    let s = put(s, "outlierDetection"@, d_outlier_detection->Ok_0);
                    let s = put(s, "tls"@, d_tls->Ok_0);
                    Ok(Json::Object(s))
                }
            },
            _ => Err(mismatch(at, Kind::Object, w)),
        }
    }

    proof fn lemma_round_trip(&self, at: Seq<char>) {
        PortTrafficPolicy::lemma_wire_keys();
        let s = Seq::empty();
        let s = put(s, "port"@, opt_enc(self.port));
        let s = put(s, "loadBalancer"@, opt_enc(self.load_balancer));
        let s = put(s, "connectionPool"@, opt_enc(self.connection_pool));
        let s = put(s, "outlierDetection"@, opt_enc(self.outlier_detection));
        let s = put(s, "tls"@, opt_enc(self.tls));
        lemma_opt_field::<PortSelector>(s, at, "port"@, self.port);
        lemma_opt_field::<LoadBalancerSettings>(s, at, "loadBalancer"@, self.load_balancer);
        lemma_opt_field::<ConnectionPoolSettings>(s, at, "connectionPool"@, self.connection_pool);
        lemma_opt_field::<OutlierDetection>(s, at, "outlierDetection"@, self.outlier_detection);
        lemma_opt_field::<ClientTLSSettings>(s, at, "tls"@, self.tls);
    }

    fn encode(&self) -> (r: Value) {
        let mut es = empty_entries();
        put_opt(&mut es, "port", &self.port);
        put_opt(&mut es, "loadBalancer", &self.load_balancer);
        put_opt(&mut es, "connectionPool", &self.connection_pool);
        put_opt(&mut es, "outlierDetection", &self.outlier_detection);
        put_opt(&mut es, "tls", &self.tls);
        Value::Object(es)
    }

    fn decode(w: &Value, at: &str) -> (r: Result<PortTrafficPolicy, DecodeError>) {
        match w {
            Value::Object(es) => {
                let port = match opt_field::<PortSelector>(es, at, "port") {
                    Ok(x) => x,
                    Err(e) => return Err(e),
                };
                let load_balancer = match opt_field::<LoadBalancerSettings>(es, at, "loadBalancer") {
                    Ok(x) => x,
                    Err(e) => return Err(e),
                };
                let connection_pool = match opt_field::<ConnectionPoolSettings>(es, at, "connectionPool") {
                    Ok(x) => x,
                    Err(e) => return Err(e),
                };
                let outlier_detection = match opt_field::<OutlierDetection>(es, at, "outlierDetection") {
                    Ok(x) => x,
                    Err(e) => return Err(e),
                };
                let tls = match opt_field::<ClientTLSSettings>(es, at, "tls") {
                    Ok(x) => x,
                    Err(e) => return Err(e),
                };
                Ok(PortTrafficPolicy { port, load_balancer, connection_pool, outlier_detection, tls })
            },
            _ => Err(type_mismatch(at, Kind::Object, w)),
        }
    }
}

impl PortTrafficPolicy {
    /// The wire keys of the type, as the proofs about its entries need them.
    proof fn lemma_wire_keys()
        ensures
            "port"@.len() == 4,
            "loadBalancer"@.len() == 12,
            "connectionPool"@.len() == 14,
            "outlierDetection"@.len() == 16,
            "tls"@.len() == 3,
    {
        reveal_strlit("port");
        reveal_strlit("loadBalancer");
        reveal_strlit("connectionPool");
        reveal_strlit("outlierDetection");
        reveal_strlit("tls");
    }

    /// A field that is absent leaves no key in the wire object.
    pub proof fn lemma_absent_fields_omitted(&self)
        ensures
            self.port is None ==> !has_key(self.enc(), "port"@),
            self.load_balancer is None ==> !has_key(self.enc(), "loadBalancer"@),
            self.connection_pool is None ==> !has_key(self.enc(), "connectionPool"@),
            self.outlier_detection is None ==> !has_key(self.enc(), "outlierDetection"@),
            self.tls is None ==> !has_key(self.enc(), "tls"@),
    {
        PortTrafficPolicy::lemma_wire_keys();
    }
}

} // verus!
