//! Policies that apply to traffic for a service after routing.
use vstd::prelude::*;
use crate::codec::{
    Codec, opt_dec, opt_enc, opt_field, opt_wf, put_opt, put_req, req_dec, req_field,
    empty_entries, lemma_opt_field, lemma_req_field, has_key, tag_step, add_tag, has_field,
};
use crate::error::{DecodeError, Failure, mismatch, strings, type_mismatch};
use crate::wire::{
    Json, Kind, Value, lookup, put, lemma_lookup_push, lemma_lookup_put, lemma_object_model,
};
use crate::client_tls_settings::TLSmode;
use crate::collections::KeyMap;
use crate::connection_pool_settings::{HTTPSettings, TCPSettings};
use crate::duration::Duration;
use crate::load_balancer_settings::{ConsistentHashLB, SimpleLB};
use crate::locality_load_balancer_settings::{Distribute, Failover};
use crate::protobuf::UInt32Value;
use crate::traffic_policy::PortTrafficPolicy;

verus! {

broadcast use {lemma_lookup_push, lemma_lookup_put, lemma_object_model, vstd::string::group_string_axioms};

/// The user-supplied part of a destination rule.
#[derive(Clone, Debug, PartialEq, Eq)]
pub struct DestinationRuleSpec {
    /// Name of a service from the service registry.
    pub host: String,
    /// Traffic policies to apply.
    pub traffic_policy: TrafficPolicy,
    /// Named sets of endpoints of the service.
    pub subsets: Option<Vec<Subset>>,
    /// Namespaces to which this rule is exported.
    pub export_to: Option<Vec<String>>,
}

impl Codec for DestinationRuleSpec {
    open spec fn wf(&self) -> bool {
        self.traffic_policy.wf() && opt_wf(self.subsets) && opt_wf(self.export_to)
    }

    open spec fn enc(&self) -> Json {
        let s = Seq::empty();
        let s = s.push(("host"@, self.host.enc()));
        let s = s.push(("trafficPolicy"@, self.traffic_policy.enc()));
        let s = put(s, "subsets"@, opt_enc(self.subsets));
        let s = put(s, "exportTo"@, opt_enc(self.export_to));
        Json::Object(s)
    }

    open spec fn dec(w: Json, at: Seq<char>) -> Result<Json, Failure> {
        match w {
            Json::Object(es) => {
                let d_host = req_dec::<String>(es, at, "host"@);
                let d_traffic_policy = req_dec::<TrafficPolicy>(es, at, "trafficPolicy"@);
                let d_subsets = opt_dec::<Vec<Subset>>(es, at, "subsets"@);
                let d_export_to = opt_dec::<Vec<String>>(es, at, "exportTo"@);
                if d_host is Err {
                    Err(d_host->Err_0)
                } else if d_traffic_policy is Err {
                    Err(d_traffic_policy->Err_0)
                } else if d_subsets is Err {
                    Err(d_subsets->Err_0)
                } else if d_export_to is Err {
                    Err(d_export_to->Err_0)
                } else {
                    let s = Seq::empty();
                    let s = s.push(("host"@, d_host->Ok_0));
                    let s = s.push(("trafficPolicy"@, d_traffic_policy->Ok_0));
                    let s = put(s, "subsets"@, d_subsets->Ok_0);
                    let s = put(s, "exportTo"@, d_export_to->Ok_0);
                    Ok(Json::Object(s))
                }
            },
            _ => Err(mismatch(at, Kind::Object, w)),
        }
    }

    proof fn lemma_round_trip(&self, at: Seq<char>) {
        DestinationRuleSpec::lemma_wire_keys();
        let s = Seq::empty();
        let s = s.push(("host"@, self.host.enc()));
        let s = s.push(("trafficPolicy"@, self.traffic_policy.enc()));
        let s = put(s, "subsets"@, opt_enc(self.subsets));
        let s = put(s, "exportTo"@, opt_enc(self.export_to));
        lemma_req_field::<String>(s, at, "host"@, self.host);
        lemma_req_field::<TrafficPolicy>(s, at, "trafficPolicy"@, self.traffic_policy);
        lemma_opt_field::<Vec<Subset>>(s, at, "subsets"@, self.subsets);
        lemma_opt_field::<Vec<String>>(s, at, "exportTo"@, self.export_to);
    }

    fn encode(&self) -> (r: Value) {
        let mut es = empty_entries();
        put_req(&mut es, "host", self.host.encode());
        put_req(&mut es, "trafficPolicy", self.traffic_policy.encode());
        put_opt(&mut es, "subsets", &self.subsets);
        put_opt(&mut es, "exportTo", &self.export_to);
        Value::Object(es)
    }

    fn decode(w: &Value, at: &str) -> (r: Result<DestinationRuleSpec, DecodeError>) {
        match w {
            Value::Object(es) => {
                let host = match req_field::<String>(es, at, "host") {
                    Ok(x) => x,
                    Err(e) => return Err(e),
                };
                let traffic_policy = match req_field::<TrafficPolicy>(es, at, "trafficPolicy") {
                    Ok(x) => x,
                    Err(e) => return Err(e),
                };
                let subsets = match opt_field::<Vec<Subset>>(es, at, "subsets") {
                    Ok(x) => x,
                    Err(e) => return Err(e),
                };
                let export_to = match opt_field::<Vec<String>>(es, at, "exportTo") {
                    Ok(x) => x,
                    Err(e) => return Err(e),
                };
                Ok(DestinationRuleSpec { host, traffic_policy, subsets, export_to })
            },
            _ => Err(type_mismatch(at, Kind::Object, w)),
        }
    }
}

impl DestinationRuleSpec {
    /// The wire keys of the type, as the proofs about its entries need them.
    proof fn lemma_wire_keys()
        ensures
            "host"@.len() == 4,
            "trafficPolicy"@.len() == 13,
            "subsets"@.len() == 7,
            "exportTo"@.len() == 8,
    {
        reveal_strlit("host");
        reveal_strlit("trafficPolicy");
        reveal_strlit("subsets");
        reveal_strlit("exportTo");
    }

    /// A field that is absent leaves no key in the wire object.
    pub proof fn lemma_absent_fields_omitted(&self)
        ensures
            self.subsets is None ==> !has_key(self.enc(), "subsets"@),
            self.export_to is None ==> !has_key(self.enc(), "exportTo"@),
    {
        DestinationRuleSpec::lemma_wire_keys();
    }
}

/// Traffic policies to apply for a specific destination, across all destination ports.
#[derive(Clone, Debug, PartialEq, Eq)]
pub struct TrafficPolicy {
    /// Settings of the load balancer algorithms.
    pub load_balancer: Option<LoadBalancerSettings>,
    /// Settings of the volume of connections to an upstream service.
    pub connection_pool: Option<ConnectionPoolSettings>,
    /// Settings of the eviction of unhealthy hosts.
    pub outlier_detection: Option<OutlierDetection>,
    /// TLS settings of connections to the upstream service.
    pub tls: Option<ClientTLSSettings>,
    /// Traffic policies specific to individual ports.
    pub port_level_settings: Option<Vec<PortTrafficPolicy>>,
}

impl Codec for TrafficPolicy {
    open spec fn wf(&self) -> bool {
        opt_wf(self.load_balancer) && opt_wf(self.connection_pool) && opt_wf(self.outlier_detection) && opt_wf(self.tls) && opt_wf(self.port_level_settings)
    }

    open spec fn enc(&self) -> Json {
        let s = Seq::empty();
        let s = put(s, "loadBalancer"@, opt_enc(self.load_balancer));
        let s = put(s, "connectionPool"@, opt_enc(self.connection_pool));
        let s = put(s, "outlierDetection"@, opt_enc(self.outlier_detection));
        let s = put(s, "tls"@, opt_enc(self.tls));
        let s = put(s, "portLevelSettings"@, opt_enc(self.port_level_settings));
        Json::Object(s)
    }

    open spec fn dec(w: Json, at: Seq<char>) -> Result<Json, Failure> {
        match w {
            Json::Object(es) => {
                let d_load_balancer = opt_dec::<LoadBalancerSettings>(es, at, "loadBalancer"@);
                let d_connection_pool = opt_dec::<ConnectionPoolSettings>(es, at, "connectionPool"@);
                let d_outlier_detection = opt_dec::<OutlierDetection>(es, at, "outlierDetection"@);
                let d_tls = opt_dec::<ClientTLSSettings>(es, at, "tls"@);
                let d_port_level_settings = opt_dec::<Vec<PortTrafficPolicy>>(es, at, "portLevelSettings"@);
                if d_load_balancer is Err {
                    Err(d_load_balancer->Err_0)
                } else if d_connection_pool is Err {
                    Err(d_connection_pool->Err_0)
                } else if d_outlier_detection is Err {
                    Err(d_outlier_detection->Err_0)
                } else if d_tls is Err {
                    Err(d_tls->Err_0)
                } else if d_port_level_settings is Err {
                    Err(d_port_level_settings->Err_0)
                } else {
                    let s = Seq::empty();
                    let s = put(s, "loadBalancer"@, d_load_balancer->Ok_0);
                    let s = put(s, "connectionPool"@, d_connection_pool->Ok_0);
                    let s = put(s, "outlierDetection"@, d_outlier_detection->Ok_0);
                    let s = put(s, "tls"@, d_tls->Ok_0);
                    let s = put(s, "portLevelSettings"@, d_port_level_settings->Ok_0);
                    Ok(Json::Object(s))
                }
            },
            _ => Err(mismatch(at, Kind::Object, w)),
        }
    }

    proof fn lemma_round_trip(&self, at: Seq<char>) {
        TrafficPolicy::lemma_wire_keys();
        let s = Seq::empty();
        let s = put(s, "loadBalancer"@, opt_enc(self.load_balancer));
        let s = put(s, "connectionPool"@, opt_enc(self.connection_pool));
        let s = put(s, "outlierDetection"@, opt_enc(self.outlier_detection));
        let s = put(s, "tls"@, opt_enc(self.tls));
        let s = put(s, "portLevelSettings"@, opt_enc(self.port_level_settings));
        lemma_opt_field::<LoadBalancerSettings>(s, at, "loadBalancer"@, self.load_balancer);
        lemma_opt_field::<ConnectionPoolSettings>(s, at, "connectionPool"@, self.connection_pool);
        lemma_opt_field::<OutlierDetection>(s, at, "outlierDetection"@, self.outlier_detection);
        lemma_opt_field::<ClientTLSSettings>(s, at, "tls"@, self.tls);
        lemma_opt_field::<Vec<PortTrafficPolicy>>(s, at, "portLevelSettings"@, self.port_level_settings);
    }

    fn encode(&self) -> (r: Value) {
        let mut es = empty_entries();
        put_opt(&mut es, "loadBalancer", &self.load_balancer);
        put_opt(&mut es, "connectionPool", &self.connection_pool);
        put_opt(&mut es, "outlierDetection", &self.outlier_detection);
        put_opt(&mut es, "tls", &self.tls);
        put_opt(&mut es, "portLevelSettings", &self.port_level_settings);
        Value::Object(es)
    }

    fn decode(w: &Value, at: &str) -> (r: Result<TrafficPolicy, DecodeError>) {
        match w {
            Value::Object(es) => {
                let load_balancer = match opt_field::<LoadBalancerSettings>(es, at, "loadBalancer") {
                    Ok(x) => x,
                    Err(e) => return Err(e),
                };
                let connection_pool = match opt_field::<ConnectionPoolSettings>(es, at, "connectionPool") {
                    Ok(x) => x,
                    Err(e) => return Err(e),
                };
                let outlier_detection = match opt_field::<OutlierDetection>(es, at, "outlierDetection") {
                    Ok(x) => x,
                    Err(e) => return Err(e),
                };
                let tls = match opt_field::<ClientTLSSettings>(es, at, "tls") {
                    Ok(x) => x,
                    Err(e) => return Err(e),
                };
                let port_level_settings = match opt_field::<Vec<PortTrafficPolicy>>(es, at, "portLevelSettings") {
                    Ok(x) => x,
                    Err(e) => return Err(e),
                };
                Ok(TrafficPolicy { load_balancer, connection_pool, outlier_detection, tls, port_level_settings })
            },
            _ => Err(type_mismatch(at, Kind::Object, w)),
        }
    }
}

impl TrafficPolicy {
    /// The wire keys of the type, as the proofs about its entries need them.
    proof fn lemma_wire_keys()
        ensures
            "loadBalancer"@.len() == 12,
            "connectionPool"@.len() == 14,
            "outlierDetection"@.len() == 16,
            "tls"@.len() == 3,
            "portLevelSettings"@.len() == 17,
    {
        reveal_strlit("loadBalancer");
        reveal_strlit("connectionPool");
        reveal_strlit("outlierDetection");
        reveal_strlit("tls");
        reveal_strlit("portLevelSettings");
    }

    /// A field that is absent leaves no key in the wire object.
    pub proof fn lemma_absent_fields_omitted(&self)
        ensures
            self.load_balancer is None ==> !has_key(self.enc(), "loadBalancer"@),
            self.connection_pool is None ==> !has_key(self.enc(), "connectionPool"@),
            self.outlier_detection is None ==> !has_key(self.enc(), "outlierDetection"@),
            self.tls is None ==> !has_key(self.enc(), "tls"@),
            self.port_level_settings is None ==> !has_key(self.enc(), "portLevelSettings"@),
    {
        TrafficPolicy::lemma_wire_keys();
    }
}

/// A subset of endpoints of a service.
#[derive(Clone, Debug, PartialEq, Eq)]
pub struct Subset {
    /// Name of the subset.
    pub name: String,
    /// Labels that select the endpoints.
    pub labels: KeyMap<String>,
    /// Traffic policies that apply to this subset.
    pub traffic_policy: TrafficPolicy,
}

impl Codec for Subset {
    open spec fn wf(&self) -> bool {
        self.labels.wf() && self.traffic_policy.wf()
    }

    open spec fn enc(&self) -> Json {
        let s = Seq::empty();
        let s = s.push(("name"@, self.name.enc()));
        let s = s.push(("labels"@, self.labels.enc()));
        let s = s.push(("trafficPolicy"@, self.traffic_policy.enc()));
        Json::Object(s)
    }

    open spec fn dec(w: Json, at: Seq<char>) -> Result<Json, Failure> {
        match w {
            Json::Object(es) => {
                let d_name = req_dec::<String>(es, at, "name"@);
                let d_labels = req_dec::<KeyMap<String>>(es, at, "labels"@);
                let d_traffic_policy = req_dec::<TrafficPolicy>(es, at, "trafficPolicy"@);
                if d_name is Err {
                    Err(d_name->Err_0)
                } else if d_labels is Err {
                    Err(d_labels->Err_0)
                } else if d_traffic_policy is Err {
                    Err(d_traffic_policy->Err_0)
                } else {
                    let s = Seq::empty();
                    let s = s.push(("name"@, d_name->Ok_0));
                    let s = s.push(("labels"@, d_labels->Ok_0));
                    let s = s.push(("trafficPolicy"@, d_traffic_policy->Ok_0));
                    Ok(Json::Object(s))
                }
            },
            _ => Err(mismatch(at, Kind::Object, w)),
        }
    }

    proof fn lemma_round_trip(&self, at: Seq<char>) {
        Subset::lemma_wire_keys();
        let s = Seq::empty();
        let s = s.push(("name"@, self.name.enc()));
        let s = s.push(("labels"@, self.labels.enc()));
        let s = s.push(("trafficPolicy"@, self.traffic_policy.enc()));
        lemma_req_field::<String>(s, at, "name"@, self.name);
        lemma_req_field::<KeyMap<String>>(s, at, "labels"@, self.labels);
        lemma_req_field::<TrafficPolicy>(s, at, "trafficPolicy"@, self.traffic_policy);
    }

    fn encode(&self) -> (r: Value) {
        let mut es = empty_entries();
        put_req(&mut es, "name", self.name.encode());
        put_req(&mut es, "labels", self.labels.encode());
        put_req(&mut es, "trafficPolicy", self.traffic_policy.encode());
        Value::Object(es)
    }

    fn decode(w: &Value, at: &str) -> (r: Result<Subset, DecodeError>) {
        match w {
            Value::Object(es) => {
                let name = match req_field::<String>(es, at, "name") {
                    Ok(x) => x,
                    Err(e) => return Err(e),
                };
                let labels = match req_field::<KeyMap<String>>(es, at, "labels") {
                    Ok(x) => x,
                    Err(e) => return Err(e),
                };
                let traffic_policy = match req_field::<TrafficPolicy>(es, at, "trafficPolicy") {
                    Ok(x) => x,
                    Err(e) => return Err(e),
                };
                Ok(Subset { name, labels, traffic_policy })
            },
            _ => Err(type_mismatch(at, Kind::Object, w)),
        }
    }
}

impl Subset {
    /// The wire keys of the type, as the proofs about its entries need them.
    proof fn lemma_wire_keys()
        ensures
            "name"@.len() == 4,
            "labels"@.len() == 6,
            "trafficPolicy"@.len() == 13,
    {
        reveal_strlit("name");
        reveal_strlit("labels");
        reveal_strlit("trafficPolicy");
    }
}

/// Load balancing policy: a standard algorithm or a consistent hash.
///
/// On the wire a variant is an object; the key that only that variant has tells which it is.
#[allow(non_camel_case_types)]
#[derive(Clone, Debug, PartialEq, Eq)]
pub enum LoadBalancerSettings {
    Simple {
        simple: SimpleLB,
        locality_lb_setting: Option<LocalityLoadBalancerSetting>,
    },
    ConsistentHash {
        consistent_hash: ConsistentHashLB,
        locality_lb_setting: Option<LocalityLoadBalancerSetting>,
    },
}

impl Codec for LoadBalancerSettings {
    open spec fn wf(&self) -> bool {
        match self {
            LoadBalancerSettings::Simple { simple, locality_lb_setting } => opt_wf((*locality_lb_setting)),
            LoadBalancerSettings::ConsistentHash { consistent_hash, locality_lb_setting } => (*consistent_hash).wf() && opt_wf((*locality_lb_setting)),
        }
    }

    open spec fn enc(&self) -> Json {
        match self {
            LoadBalancerSettings::Simple { simple, locality_lb_setting } => {
                let s = Seq::empty();
                let s = s.push(("simple"@, (*simple).enc()));
                let s = put(s, "localityLbSetting"@, opt_enc((*locality_lb_setting)));
                Json::Object(s)
            },
            LoadBalancerSettings::ConsistentHash { consistent_hash, locality_lb_setting } => {
                let s = Seq::empty();
                let s = s.push(("consistentHash"@, (*consistent_hash).enc()));
                let s = put(s, "localityLbSetting"@, opt_enc((*locality_lb_setting)));
                Json::Object(s)
            },
        }
    }

    open spec fn dec(w: Json, at: Seq<char>) -> Result<Json, Failure> {
        match w {
            Json::Object(es) => {
                let t = Seq::empty();
                let t = tag_step(t, es, "simple"@);
                let t = tag_step(t, es, "consistentHash"@);
                if t.len() == 0 {
                    Err(Failure::NoMatchingVariant { union_name: "LoadBalancerSettings"@ })
                } else if t.len() > 1 {
                    Err(Failure::AmbiguousVariant { union_name: "LoadBalancerSettings"@, tags: t })
                } else if lookup(es, "simple"@) is Some {
                    let d_simple = req_dec::<SimpleLB>(es, at, "simple"@);
                    let d_locality_lb_setting = opt_dec::<LocalityLoadBalancerSetting>(es, at, "localityLbSetting"@);
                    if d_simple is Err {
                        Err(d_simple->Err_0)
                    } else if d_locality_lb_setting is Err {
                        Err(d_locality_lb_setting->Err_0)
                    } else {
                        let s = Seq::empty();
                        let s = s.push(("simple"@, d_simple->Ok_0));
                        let s = put(s, "localityLbSetting"@, d_locality_lb_setting->Ok_0);
                        Ok(Json::Object(s))
                    }
                } else {
                    let d_consistent_hash = req_dec::<ConsistentHashLB>(es, at, "consistentHash"@);
                    let d_locality_lb_setting = opt_dec::<LocalityLoadBalancerSetting>(es, at, "localityLbSetting"@);
                    if d_consistent_hash is Err {
                        Err(d_consistent_hash->Err_0)
                    } else if d_locality_lb_setting is Err {
                        Err(d_locality_lb_setting->Err_0)
                    } else {
                        let s = Seq::empty();
                        let s = s.push(("consistentHash"@, d_consistent_hash->Ok_0));
                        let s = put(s, "localityLbSetting"@, d_locality_lb_setting->Ok_0);
                        Ok(Json::Object(s))
                    }
                }
            },
            _ => Err(mismatch(at, Kind::Object, w)),
        }
    }

    proof fn lemma_round_trip(&self, at: Seq<char>) {
        LoadBalancerSettings::lemma_wire_keys();
        match self {
            LoadBalancerSettings::Simple { simple, locality_lb_setting } => {
                let s = Seq::empty();
                let s = s.push(("simple"@, (*simple).enc()));
                let s = put(s, "localityLbSetting"@, opt_enc((*locality_lb_setting)));
                lemma_req_field::<SimpleLB>(s, at, "simple"@, (*simple));
                lemma_opt_field::<LocalityLoadBalancerSetting>(s, at, "localityLbSetting"@, (*locality_lb_setting));
            },
            LoadBalancerSettings::ConsistentHash { consistent_hash, locality_lb_setting } => {
                let s = Seq::empty();
                let s = s.push(("consistentHash"@, (*consistent_hash).enc()));
                let s = put(s, "localityLbSetting"@, opt_enc((*locality_lb_setting)));
                lemma_req_field::<ConsistentHashLB>(s, at, "consistentHash"@, (*consistent_hash));
                lemma_opt_field::<LocalityLoadBalancerSetting>(s, at, "localityLbSetting"@, (*locality_lb_setting));
            },
        }
    }

    fn encode(&self) -> (r: Value) {
        match self {
            LoadBalancerSettings::Simple { simple, locality_lb_setting } => {
                let mut es = empty_entries();
                put_req(&mut es, "simple", simple.encode());
                put_opt(&mut es, "localityLbSetting", &locality_lb_setting);
                Value::Object(es)
            },
            LoadBalancerSettings::ConsistentHash { consistent_hash, locality_lb_setting } => {
                let mut es = empty_entries();
                put_req(&mut es, "consistentHash", consistent_hash.encode());
                put_opt(&mut es, "localityLbSetting", &locality_lb_setting);
                Value::Object(es)
            },
        }
    }

    fn decode(w: &Value, at: &str) -> (r: Result<LoadBalancerSettings, DecodeError>) {
        match w {
            Value::Object(es) => {
                let mut tags: Vec<String> = Vec::new();
                assert(strings(tags@) =~= Seq::<Seq<char>>::empty());
                add_tag(&mut tags, es, "simple");
                add_tag(&mut tags, es, "consistentHash");
                if tags.len() == 0 {
                    Err(DecodeError::NoMatchingVariant { union_name: String::from_str("LoadBalancerSettings") })
                } else if tags.len() > 1 {
                    Err(DecodeError::AmbiguousVariant { union_name: String::from_str("LoadBalancerSettings"), tags })
                } else if has_field(es, "simple") {
                    let simple = match req_field::<SimpleLB>(es, at, "simple") {
                        Ok(x) => x,
                        Err(e) => return Err(e),
                    };
                    let locality_lb_setting = match opt_field::<LocalityLoadBalancerSetting>(es, at, "localityLbSetting") {
                        Ok(x) => x,
                        Err(e) => return Err(e),
                    };
                    Ok(LoadBalancerSettings::Simple { simple, locality_lb_setting })
                } else {
                    let consistent_hash = match req_field::<ConsistentHashLB>(es, at, "consistentHash") {
                        Ok(x) => x,
                        Err(e) => return Err(e),
                    };
                    let locality_lb_setting = match opt_field::<LocalityLoadBalancerSetting>(es, at, "localityLbSetting") {
                        Ok(x) => x,
                        Err(e) => return Err(e),
                    };
                    Ok(LoadBalancerSettings::ConsistentHash { consistent_hash, locality_lb_setting })
                }
            },
            _ => Err(type_mismatch(at, Kind::Object, w)),
        }
    }
}

impl LoadBalancerSettings {
    /// The wire keys of the type, as the proofs about its entries need them.
    proof fn lemma_wire_keys()
        ensures
            "simple"@.len() == 6,
            "localityLbSetting"@.len() == 17,
            "consistentHash"@.len() == 14,
    {
        reveal_strlit("simple");
        reveal_strlit("localityLbSetting");
        reveal_strlit("consistentHash");
    }
}

/// Connection pool settings for an upstream host.
#[derive(Clone, Debug, PartialEq, Eq)]
pub struct ConnectionPoolSettings {
    /// Settings common to both HTTP and TCP upstream connections.
    pub tcp: Option<TCPSettings>,
    /// HTTP connection pool settings.
    pub http: Option<HTTPSettings>,
}

impl Codec for ConnectionPoolSettings {
    open spec fn wf(&self) -> bool {
        opt_wf(self.tcp) && opt_wf(self.http)
    }

    open spec fn enc(&self) -> Json {
        let s = Seq::empty();
        let s = put(s, "tcp"@, opt_enc(self.tcp));
        let s = put(s, "http"@, opt_enc(self.http));
        Json::Object(s)
    }

    open spec fn dec(w: Json, at: Seq<char>) -> Result<Json, Failure> {
        match w {
            Json::Object(es) => {
                let d_tcp = opt_dec::<TCPSettings>(es, at, "tcp"@);
                let d_http = opt_dec::<HTTPSettings>(es, at, "http"@);
                if d_tcp is Err {
                    Err(d_tcp->Err_0)
                } else if d_http is Err {
                    Err(d_http->Err_0)
                } else {
                    let s = Seq::empty();
                    let s = put(s, "tcp"@, d_tcp->Ok_0);
                    let s = put(s, "http"@, d_http->Ok_0);
                    Ok(Json::Object(s))
                }
            },
            _ => Err(mismatch(at, Kind::Object, w)),
        }
    }

    proof fn lemma_round_trip(&self, at: Seq<char>) {
        ConnectionPoolSettings::lemma_wire_keys();
        let s = Seq::empty();
        let s = put(s, "tcp"@, opt_enc(self.tcp));
        let s = put(s, "http"@, opt_enc(self.http));
        lemma_opt_field::<TCPSettings>(s, at, "tcp"@, self.tcp);
        lemma_opt_field::<HTTPSettings>(s, at, "http"@, self.http);
    }

    fn encode(&self) -> (r: Value) {
        let mut es = empty_entries();
        put_opt(&mut es, "tcp", &self.tcp);
        put_opt(&mut es, "http", &self.http);
        Value::Object(es)
    }

    fn decode(w: &Value, at: &str) -> (r: Result<ConnectionPoolSettings, DecodeError>) {
        match w {
            Value::Object(es) => {
                let tcp = match opt_field::<TCPSettings>(es, at, "tcp") {
                    Ok(x) => x,
                    Err(e) => return Err(e),
                };
                let http = match opt_field::<HTTPSettings>(es, at, "http") {
                    Ok(x) => x,
                    Err(e) => return Err(e),
                };
                Ok(ConnectionPoolSettings { tcp, http })
            },
            _ => Err(type_mismatch(at, Kind::Object, w)),
        }
    }
}

impl ConnectionPoolSettings {
    /// The wire keys of the type, as the proofs about its entries need them.
    proof fn lemma_wire_keys()
        ensures
            "tcp"@.len() == 3,
            "http"@.len() == 4,
    {
        reveal_strlit("tcp");
        reveal_strlit("http");
    }

    /// A field that is absent leaves no key in the wire object.
    pub proof fn lemma_absent_fields_omitted(&self)
        ensures
            self.tcp is None ==> !has_key(self.enc(), "tcp"@),
            self.http is None ==> !has_key(self.enc(), "http"@),
    {
        ConnectionPoolSettings::lemma_wire_keys();
    }
}

/// Circuit breaker that tracks the status of each host of the upstream service.
#[derive(Clone, Debug, PartialEq, Eq)]
pub struct OutlierDetection {
    /// Whether local origin failures are told apart from external errors.
    pub split_external_local_origin_errors: Option<bool>,
    /// Consecutive local origin failures before ejection.
    pub consecutive_local_origin_failures: Option<UInt32Value>,
    /// Consecutive gateway errors before ejection.
    pub consecutive_gateway_errors: Option<UInt32Value>,
    /// Consecutive 5xx errors before ejection.
    pub consecutive5xx_errors: Option<UInt32Value>,
    /// Time between ejection sweep analysis.
    pub interval: Option<Duration>,
    /// Minimum ejection duration.
    pub base_ejection_time: Option<Duration>,
    /// Maximum percentage of hosts that can be ejected.
    pub max_ejection_percent: Option<i32>,
    /// Percentage of healthy hosts below which outlier detection is disabled.
    pub min_health_percent: Option<i32>,
}

impl Codec for OutlierDetection {
    open spec fn wf(&self) -> bool {
        opt_wf(self.consecutive_local_origin_failures) && opt_wf(self.consecutive_gateway_errors) && opt_wf(self.consecutive5xx_errors)
    }

    open spec fn enc(&self) -> Json {
        let s = Seq::empty();
        let s = put(s, "splitExternalLocalOriginErrors"@, opt_enc(self.split_external_local_origin_errors));
        let s = put(s, "consecutiveLocalOriginFailures"@, opt_enc(self.consecutive_local_origin_failures));
        let s = put(s, "consecutiveGatewayErrors"@, opt_enc(self.consecutive_gateway_errors));
        let s = put(s, "consecutive5xxErrors"@, opt_enc(self.consecutive5xx_errors));
        let s = put(s, "interval"@, opt_enc(self.interval));
        let s = put(s, "baseEjectionTime"@, opt_enc(self.base_ejection_time));
        let s = put(s, "maxEjectionPercent"@, opt_enc(self.max_ejection_percent));
        let s = put(s, "minHealthPercent"@, opt_enc(self.min_health_percent));
        Json::Object(s)
    }

    open spec fn dec(w: Json, at: Seq<char>) -> Result<Json, Failure> {
        match w {
            Json::Object(es) => {
                let d_split_external_local_origin_errors = opt_dec::<bool>(es, at, "splitExternalLocalOriginErrors"@);
                let d_consecutive_local_origin_failures = opt_dec::<UInt32Value>(es, at, "consecutiveLocalOriginFailures"@);
                let d_consecutive_gateway_errors = opt_dec::<UInt32Value>(es, at, "consecutiveGatewayErrors"@);
                let d_consecutive5xx_errors = opt_dec::<UInt32Value>(es, at, "consecutive5xxErrors"@);
                let d_interval = opt_dec::<Duration>(es, at, "interval"@);
                let d_base_ejection_time = opt_dec::<Duration>(es, at, "baseEjectionTime"@);
                let d_max_ejection_percent = opt_dec::<i32>(es, at, "maxEjectionPercent"@);
                let d_min_health_percent = opt_dec::<i32>(es, at, "minHealthPercent"@);
                if d_split_external_local_origin_errors is Err {
                    Err(d_split_external_local_origin_errors->Err_0)
                } else if d_consecutive_local_origin_failures is Err {
                    Err(d_consecutive_local_origin_failures->Err_0)
                } else if d_consecutive_gateway_errors is Err {
                    Err(d_consecutive_gateway_errors->Err_0)
                } else if d_consecutive5xx_errors is Err {
                    Err(d_consecutive5xx_errors->Err_0)
                } else if d_interval is Err {
                    Err(d_interval->Err_0)
                } else if d_base_ejection_time is Err {
                    Err(d_base_ejection_time->Err_0)
                } else if d_max_ejection_percent is Err {
                    Err(d_max_ejection_percent->Err_0)
                } else if d_min_health_percent is Err {
                    Err(d_min_health_percent->Err_0)
                } else {
                    let s = Seq::empty();
                    let s = put(s, "splitExternalLocalOriginErrors"@, d_split_external_local_origin_errors->Ok_0);
                    let s = put(s, "consecutiveLocalOriginFailures"@, d_consecutive_local_origin_failures->Ok_0);
                    let s = put(s, "consecutiveGatewayErrors"@, d_consecutive_gateway_errors->Ok_0);
                    let s = put(s, "consecutive5xxErrors"@, d_consecutive5xx_errors->Ok_0);
                    let s = put(s, "interval"@, d_interval->Ok_0);
                    let s = put(s, "baseEjectionTime"@, d_base_ejection_time->Ok_0);
                    let s = put(s, "maxEjectionPercent"@, d_max_ejection_percent->Ok_0);
                    let s = put(s, "minHealthPercent"@, d_min_health_percent->Ok_0);
                    Ok(Json::Object(s))
                }
            },
            _ => Err(mismatch(at, Kind::Object, w)),
        }
    }

    proof fn lemma_round_trip(&self, at: Seq<char>) {
        OutlierDetection::lemma_wire_keys();
        let s = Seq::empty();
        let s = put(s, "splitExternalLocalOriginErrors"@, opt_enc(self.split_external_local_origin_errors));
        let s = put(s, "consecutiveLocalOriginFailures"@, opt_enc(self.consecutive_local_origin_failures));
        let s = put(s, "consecutiveGatewayErrors"@, opt_enc(self.consecutive_gateway_errors));
        let s = put(s, "consecutive5xxErrors"@, opt_enc(self.consecutive5xx_errors));
        let s = put(s, "interval"@, opt_enc(self.interval));
        let s = put(s, "baseEjectionTime"@, opt_enc(self.base_ejection_time));
        let s = put(s, "maxEjectionPercent"@, opt_enc(self.max_ejection_percent));
        let s = put(s, "minHealthPercent"@, opt_enc(self.min_health_percent));
        lemma_opt_field::<bool>(s, at, "splitExternalLocalOriginErrors"@, self.split_external_local_origin_errors);
        lemma_opt_field::<UInt32Value>(s, at, "consecutiveLocalOriginFailures"@, self.consecutive_local_origin_failures);
        lemma_opt_field::<UInt32Value>(s, at, "consecutiveGatewayErrors"@, self.consecutive_gateway_errors);
        lemma_opt_field::<UInt32Value>(s, at, "consecutive5xxErrors"@, self.consecutive5xx_errors);
        lemma_opt_field::<Duration>(s, at, "interval"@, self.interval);
        lemma_opt_field::<Duration>(s, at, "baseEjectionTime"@, self.base_ejection_time);
        lemma_opt_field::<i32>(s, at, "maxEjectionPercent"@, self.max_ejection_percent);
        lemma_opt_field::<i32>(s, at, "minHealthPercent"@, self.min_health_percent);
    }

    fn encode(&self) -> (r: Value) {
        let mut es = empty_entries();
        put_opt(&mut es, "splitExternalLocalOriginErrors", &self.split_external_local_origin_errors);
        put_opt(&mut es, "consecutiveLocalOriginFailures", &self.consecutive_local_origin_failures);
        put_opt(&mut es, "consecutiveGatewayErrors", &self.consecutive_gateway_errors);
        put_opt(&mut es, "consecutive5xxErrors", &self.consecutive5xx_errors);
        put_opt(&mut es, "interval", &self.interval);
        put_opt(&mut es, "baseEjectionTime", &self.base_ejection_time);
        put_opt(&mut es, "maxEjectionPercent", &self.max_ejection_percent);
        put_opt(&mut es, "minHealthPercent", &self.min_health_percent);
        Value::Object(es)
    }

    fn decode(w: &Value, at: &str) -> (r: Result<OutlierDetection, DecodeError>) {
        match w {
            Value::Object(es) => {
                let split_external_local_origin_errors = match opt_field::<bool>(es, at, "splitExternalLocalOriginErrors") {
                    Ok(x) => x,
                    Err(e) => return Err(e),
                };
                let consecutive_local_origin_failures = match opt_field::<UInt32Value>(es, at, "consecutiveLocalOriginFailures") {
                    Ok(x) => x,
                    Err(e) => return Err(e),
                };
                let consecutive_gateway_errors = match opt_field::<UInt32Value>(es, at, "consecutiveGatewayErrors") {
                    Ok(x) => x,
                    Err(e) => return Err(e),
                };
                let consecutive5xx_errors = match opt_field::<UInt32Value>(es, at, "consecutive5xxErrors") {
                    Ok(x) => x,
                    Err(e) => return Err(e),
                };
                let interval = match opt_field::<Duration>(es, at, "interval") {
                    Ok(x) => x,
                    Err(e) => return Err(e),
                };
                let base_ejection_time = match opt_field::<Duration>(es, at, "baseEjectionTime") {
                    Ok(x) => x,
                    Err(e) => return Err(e),
                };
                let max_ejection_percent = match opt_field::<i32>(es, at, "maxEjectionPercent") {
                    Ok(x) => x,
                    Err(e) => return Err(e),
                };
                let min_health_percent = match opt_field::<i32>(es, at, "minHealthPercent") {
                    Ok(x) => x,
                    Err(e) => return Err(e),
                };
                Ok(OutlierDetection { split_external_local_origin_errors, consecutive_local_origin_failures, consecutive_gateway_errors, consecutive5xx_errors, interval, base_ejection_time, max_ejection_percent, min_health_percent })
            },
            _ => Err(type_mismatch(at, Kind::Object, w)),
        }
    }
}

impl OutlierDetection {
    /// The wire keys of the type, as the proofs about its entries need them.
    proof fn lemma_wire_keys()
        ensures
            "splitExternalLocalOriginErrors"@.len() == 30,
            "splitExternalLocalOriginErrors"@[0] == 's',
            "consecutiveLocalOriginFailures"@.len() == 30,
            "consecutiveLocalOriginFailures"@[0] == 'c',
            "consecutiveGatewayErrors"@.len() == 24,
            "consecutive5xxErrors"@.len() == 20,
            "interval"@.len() == 8,
            "baseEjectionTime"@.len() == 16,
            "baseEjectionTime"@[0] == 'b',
            "maxEjectionPercent"@.len() == 18,
            "minHealthPercent"@.len() == 16,
            "minHealthPercent"@[0] == 'm',
    {
        reveal_strlit("splitExternalLocalOriginErrors");
        reveal_strlit("consecutiveLocalOriginFailures");
        reveal_strlit("consecutiveGatewayErrors");
        reveal_strlit("consecutive5xxErrors");
        reveal_strlit("interval");
        reveal_strlit("baseEjectionTime");
        reveal_strlit("maxEjectionPercent");
        reveal_strlit("minHealthPercent");
    }

    /// A field that is absent leaves no key in the wire object.
    pub proof fn lemma_absent_fields_omitted(&self)
        ensures
            self.split_external_local_origin_errors is None ==> !has_key(self.enc(), "splitExternalLocalOriginErrors"@),
            self.consecutive_local_origin_failures is None ==> !has_key(self.enc(), "consecutiveLocalOriginFailures"@),
            self.consecutive_gateway_errors is None ==> !has_key(self.enc(), "consecutiveGatewayErrors"@),
            self.consecutive5xx_errors is None ==> !has_key(self.enc(), "consecutive5xxErrors"@),
            self.interval is None ==> !has_key(self.enc(), "interval"@),
            self.base_ejection_time is None ==> !has_key(self.enc(), "baseEjectionTime"@),
            self.max_ejection_percent is None ==> !has_key(self.enc(), "maxEjectionPercent"@),
            self.min_health_percent is None ==> !has_key(self.enc(), "minHealthPercent"@),
    {
        OutlierDetection::lemma_wire_keys();
    }
}

/// TLS settings of connections to an upstream service.
#[derive(Clone, Debug, PartialEq, Eq)]
pub struct ClientTLSSettings {
    /// Whether and how the connection is secured with TLS.
    pub mode: TLSmode,
    /// File with the client-side certificate.
    pub client_certificate: Option<String>,
    /// File with the client's private key.
    pub private_key: Option<String>,
    /// File with certificate authority certificates.
    pub ca_certificates: Option<String>,
    /// Name of the secret that holds the TLS certificates.
    pub credential_name: Option<String>,
    /// Alternate names that verify the subject identity.
    pub subject_alt_names: Option<Vec<String>>,
    /// SNI string presented during the TLS handshake.
    pub sni: Option<String>,
    /// Whether verification of the server certificate is skipped.
    pub insecure_skip_verify: Option<bool>,
}

impl Codec for ClientTLSSettings {
    open spec fn wf(&self) -> bool {
        opt_wf(self.subject_alt_names)
    }

    open spec fn enc(&self) -> Json {
        let s = Seq::empty();
        let s = s.push(("mode"@, self.mode.enc()));
        let s = put(s, "clientCertificate"@, opt_enc(self.client_certificate));
        let s = put(s, "privateKey"@, opt_enc(self.private_key));
        let s = put(s, "caCertificates"@, opt_enc(self.ca_certificates));
        let s = put(s, "credentialName"@, opt_enc(self.credential_name));
        let s = put(s, "subjectAltNames"@, opt_enc(self.subject_alt_names));
        let s = put(s, "sni"@, opt_enc(self.sni));
        let s = put(s, "insecureSkipVerify"@, opt_enc(self.insecure_skip_verify));
        Json::Object(s)
    }

    open spec fn dec(w: Json, at: Seq<char>) -> Result<Json, Failure> {
        match w {
            Json::Object(es) => {
                let d_mode = req_dec::<TLSmode>(es, at, "mode"@);
                let d_client_certificate = opt_dec::<String>(es, at, "clientCertificate"@);
                let d_private_key = opt_dec::<String>(es, at, "privateKey"@);
                let d_ca_certificates = opt_dec::<String>(es, at, "caCertificates"@);
                let d_credential_name = opt_dec::<String>(es, at, "credentialName"@);
                let d_subject_alt_names = opt_dec::<Vec<String>>(es, at, "subjectAltNames"@);
                let d_sni = opt_dec::<String>(es, at, "sni"@);
                let d_insecure_skip_verify = opt_dec::<bool>(es, at, "insecureSkipVerify"@);
                if d_mode is Err {
                    Err(d_mode->Err_0)
                } else if d_client_certificate is Err {
                    Err(d_client_certificate->Err_0)
                } else if d_private_key is Err {
                    Err(d_private_key->Err_0)
                } else if d_ca_certificates is Err {
                    Err(d_ca_certificates->Err_0)
                } else if d_credential_name is Err {
                    Err(d_credential_name->Err_0)
                } else if d_subject_alt_names is Err {
                    Err(d_subject_alt_names->Err_0)
                } else if d_sni is Err {
                    Err(d_sni->Err_0)
                } else if d_insecure_skip_verify is Err {
                    Err(d_insecure_skip_verify->Err_0)
                } else {
                    let s = Seq::empty();
                    let s = s.push(("mode"@, d_mode->Ok_0));
                    let s = put(s, "clientCertificate"@, d_client_certificate->Ok_0);
                    let s = put(s, "privateKey"@, d_private_key->Ok_0);
                    let s = put(s, "caCertificates"@, d_ca_certificates->Ok_0);
                    let s = put(s, "credentialName"@, d_credential_name->Ok_0);
                    let s = put(s, "subjectAltNames"@, d_subject_alt_names->Ok_0);
                    let s = put(s, "sni"@, d_sni->Ok_0);
                    let s = put(s, "insecureSkipVerify"@, d_insecure_skip_verify->Ok_0);
                    Ok(Json::Object(s))
                }
            },
            _ => Err(mismatch(at, Kind::Object, w)),
        }
    }

    proof fn lemma_round_trip(&self, at: Seq<char>) {
        ClientTLSSettings::lemma_wire_keys();
        let s = Seq::empty();
        let s = s.push(("mode"@, self.mode.enc()));
        let s = put(s, "clientCertificate"@, opt_enc(self.client_certificate));
        let s = put(s, "privateKey"@, opt_enc(self.private_key));
        let s = put(s, "caCertificates"@, opt_enc(self.ca_certificates));
        let s = put(s, "credentialName"@, opt_enc(self.credential_name));
        let s = put(s, "subjectAltNames"@, opt_enc(self.subject_alt_names));
        let s = put(s, "sni"@, opt_enc(self.sni));
        let s = put(s, "insecureSkipVerify"@, opt_enc(self.insecure_skip_verify));
        lemma_req_field::<TLSmode>(s, at, "mode"@, self.mode);
        lemma_opt_field::<String>(s, at, "clientCertificate"@, self.client_certificate);
        lemma_opt_field::<String>(s, at, "privateKey"@, self.private_key);
        lemma_opt_field::<String>(s, at, "caCertificates"@, self.ca_certificates);
        lemma_opt_field::<String>(s, at, "credentialName"@, self.credential_name);
        lemma_opt_field::<Vec<String>>(s, at, "subjectAltNames"@, self.subject_alt_names);
        lemma_opt_field::<String>(s, at, "sni"@, self.sni);
        lemma_opt_field::<bool>(s, at, "insecureSkipVerify"@, self.insecure_skip_verify);
    }

    fn encode(&self) -> (r: Value) {
        let mut es = empty_entries();
        put_req(&mut es, "mode", self.mode.encode());
        put_opt(&mut es, "clientCertificate", &self.client_certificate);
        put_opt(&mut es, "privateKey", &self.private_key);
        put_opt(&mut es, "caCertificates", &self.ca_certificates);
        put_opt(&mut es, "credentialName", &self.credential_name);
        put_opt(&mut es, "subjectAltNames", &self.subject_alt_names);
        put_opt(&mut es, "sni", &self.sni);
        put_opt(&mut es, "insecureSkipVerify", &self.insecure_skip_verify);
        Value::Object(es)
    }

    fn decode(w: &Value, at: &str) -> (r: Result<ClientTLSSettings, DecodeError>) {
        match w {
            Value::Object(es) => {
                let mode = match req_field::<TLSmode>(es, at, "mode") {
                    Ok(x) => x,
                    Err(e) => return Err(e),
                };
                let client_certificate = match opt_field::<String>(es, at, "clientCertificate") {
                    Ok(x) => x,
                    Err(e) => return Err(e),
                };
                let private_key = match opt_field::<String>(es, at, "privateKey") {
                    Ok(x) => x,
                    Err(e) => return Err(e),
                };
                let ca_certificates = match opt_field::<String>(es, at, "caCertificates") {
                    Ok(x) => x,
                    Err(e) => return Err(e),
                };
                let credential_name = match opt_field::<String>(es, at, "credentialName") {
                    Ok(x) => x,
                    Err(e) => return Err(e),
                };
                let subject_alt_names = match opt_field::<Vec<String>>(es, at, "subjectAltNames") {
                    Ok(x) => x,
                    Err(e) => return Err(e),
                };
                let sni = match opt_field::<String>(es, at, "sni") {
                    Ok(x) => x,
                    Err(e) => return Err(e),
                };
                let insecure_skip_verify = match opt_field::<bool>(es, at, "insecureSkipVerify") {
                    Ok(x) => x,
                    Err(e) => return Err(e),
                };
                Ok(ClientTLSSettings { mode, client_certificate, private_key, ca_certificates, credential_name, subject_alt_names, sni, insecure_skip_verify })
            },
            _ => Err(type_mismatch(at, Kind::Object, w)),
        }
    }
}

impl ClientTLSSettings {
    /// The wire keys of the type, as the proofs about its entries need them.
    proof fn lemma_wire_keys()
        ensures
            "mode"@.len() == 4,
            "clientCertificate"@.len() == 17,
            "privateKey"@.len() == 10,
            "caCertificates"@.len() == 14,
            "caCertificates"@[1] == 'a',
            "credentialName"@.len() == 14,
            "credentialName"@[1] == 'r',
            "subjectAltNames"@.len() == 15,
            "sni"@.len() == 3,
            "insecureSkipVerify"@.len() == 18,
    {
        reveal_strlit("mode");
        reveal_strlit("clientCertificate");
        reveal_strlit("privateKey");
        reveal_strlit("caCertificates");
        reveal_strlit("credentialName");
        reveal_strlit("subjectAltNames");
        reveal_strlit("sni");
        reveal_strlit("insecureSkipVerify");
    }

    /// A field that is absent leaves no key in the wire object.
    pub proof fn lemma_absent_fields_omitted(&self)
        ensures
            self.client_certificate is None ==> !has_key(self.enc(), "clientCertificate"@),
            self.private_key is None ==> !has_key(self.enc(), "privateKey"@),
            self.ca_certificates is None ==> !has_key(self.enc(), "caCertificates"@),
            self.credential_name is None ==> !has_key(self.enc(), "credentialName"@),
            self.subject_alt_names is None ==> !has_key(self.enc(), "subjectAltNames"@),
            self.sni is None ==> !has_key(self.enc(), "sni"@),
            self.insecure_skip_verify is None ==> !has_key(self.enc(), "insecureSkipVerify"@),
    {
        ClientTLSSettings::lemma_wire_keys();
    }
}

/// Locality-weighted load balancing.
#[derive(Clone, Debug, PartialEq, Eq)]
pub struct LocalityLoadBalancerSetting {
    /// How traffic is distributed across localities.
    pub distribute: Option<Vec<Distribute>>,
    /// Where traffic fails over to across regions.
    pub failover: Option<Vec<Failover>>,
    /// Ordered labels that sort endpoints for failover.
    pub failover_priority: Option<Vec<String>>,
    /// Whether locality load balancing is enabled.
    pub enabled: Option<bool>,
}

impl Codec for LocalityLoadBalancerSetting {
    open spec fn wf(&self) -> bool {
        opt_wf(self.distribute) && opt_wf(self.failover) && opt_wf(self.failover_priority)
    }

    open spec fn enc(&self) -> Json {
        let s = Seq::empty();
        let s = put(s, "distribute"@, opt_enc(self.distribute));
        let s = put(s, "failover"@, opt_enc(self.failover));
        let s = put(s, "failoverPriority"@, opt_enc(self.failover_priority));
        let s = put(s, "enabled"@, opt_enc(self.enabled));
        Json::Object(s)
    }

    open spec fn dec(w: Json, at: Seq<char>) -> Result<Json, Failure> {
        match w {
            Json::Object(es) => {
                let d_distribute = opt_dec::<Vec<Distribute>>(es, at, "distribute"@);
                let d_failover = opt_dec::<Vec<Failover>>(es, at, "failover"@);
                let d_failover_priority = opt_dec::<Vec<String>>(es, at, "failoverPriority"@);
                let d_enabled = opt_dec::<bool>(es, at, "enabled"@);
                if d_distribute is Err {
                    Err(d_distribute->Err_0)
                } else if d_failover is Err {
                    Err(d_failover->Err_0)
                } else if d_failover_priority is Err {
                    Err(d_failover_priority->Err_0)
                } else if d_enabled is Err {
                    Err(d_enabled->Err_0)
                } else {
                    let s = Seq::empty();
                    let s = put(s, "distribute"@, d_distribute->Ok_0);
                    let s = put(s, "failover"@, d_failover->Ok_0);
                    let s = put(s, "failoverPriority"@, d_failover_priority->Ok_0);
                    let s = put(s, "enabled"@, d_enabled->Ok_0);
                    Ok(Json::Object(s))
                }
            },
            _ => Err(mismatch(at, Kind::Object, w)),
        }
    }

    proof fn lemma_round_trip(&self, at: Seq<char>) {
        LocalityLoadBalancerSetting::lemma_wire_keys();
        let s = Seq::empty();
        let s = put(s, "distribute"@, opt_enc(self.distribute));
        let s = put(s, "failover"@, opt_enc(self.failover));
        let s = put(s, "failoverPriority"@, opt_enc(self.failover_priority));
        let s = put(s, "enabled"@, opt_enc(self.enabled));
        lemma_opt_field::<Vec<Distribute>>(s, at, "distribute"@, self.distribute);
        lemma_opt_field::<Vec<Failover>>(s, at, "failover"@, self.failover);
        lemma_opt_field::<Vec<String>>(s, at, "failoverPriority"@, self.failover_priority);
        lemma_opt_field::<bool>(s, at, "enabled"@, self.enabled);
    }

    fn encode(&self) -> (r: Value) {
        let mut es = empty_entries();
        put_opt(&mut es, "distribute", &self.distribute);
        put_opt(&mut es, "failover", &self.failover);
        put_opt(&mut es, "failoverPriority", &self.failover_priority);
        put_opt(&mut es, "enabled", &self.enabled);
        Value::Object(es)
    }

    fn decode(w: &Value, at: &str) -> (r: Result<LocalityLoadBalancerSetting, DecodeError>) {
        match w {
            Value::Object(es) => {
                let distribute = match opt_field::<Vec<Distribute>>(es, at, "distribute") {
                    Ok(x) => x,
                    Err(e) => return Err(e),
                };
                let failover = match opt_field::<Vec<Failover>>(es, at, "failover") {
                    Ok(x) => x,
                    Err(e) => return Err(e),
                };
                let failover_priority = match opt_field::<Vec<String>>(es, at, "failoverPriority") {
                    Ok(x) => x,
                    Err(e) => return Err(e),
                };
                let enabled = match opt_field::<bool>(es, at, "enabled") {
                    Ok(x) => x,
                    Err(e) => return Err(e),
                };
                Ok(LocalityLoadBalancerSetting { distribute, failover, failover_priority, enabled })
            },
            _ => Err(type_mismatch(at, Kind::Object, w)),
        }
    }
}

impl LocalityLoadBalancerSetting {
    /// The wire keys of the type, as the proofs about its entries need them.
    proof fn lemma_wire_keys()
        ensures
            "distribute"@.len() == 10,
            "failover"@.len() == 8,
            "failoverPriority"@.len() == 16,
            "enabled"@.len() == 7,
    {
        reveal_strlit("distribute");
        reveal_strlit("failover");
        reveal_strlit("failoverPriority");
        reveal_strlit("enabled");
    }

    /// A field that is absent leaves no key in the wire object.
    pub proof fn lemma_absent_fields_omitted(&self)
        ensures
            self.distribute is None ==> !has_key(self.enc(), "distribute"@),
            self.failover is None ==> !has_key(self.enc(), "failover"@),
            self.failover_priority is None ==> !has_key(self.enc(), "failoverPriority"@),
            self.enabled is None ==> !has_key(self.enc(), "enabled"@),
    {
        LocalityLoadBalancerSetting::lemma_wire_keys();
    }
}

} // verus!
