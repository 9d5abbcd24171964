use k8s_openapi::apimachinery::pkg::apis::meta::v1::ObjectMeta;
use kube_extra::codec::Codec;
use kube_extra::collections::KeyMap;
use kube_extra::destination_rule::{DestinationRuleSpec, TrafficPolicy};
use kube_extra::error::DecodeError;
use kube_extra::gateway::{GatewaySpec, Port, Server};
use kube_extra::resource::{DestinationRule, Document, ResourceKind, decode_document, encode_document};
use kube_extra::virtual_service::{
    Destination, FaultInjectionAbort, HttpFaultInjection, HttpRoute, HttpRouteDestination, Percent,
    StringMatch, VirtualServiceSpec,
};
use kube_extra::wire::Value;

fn s(t: &str) -> Value {
    Value::Str(t.to_string())
}

fn obj(es: Vec<(&str, Value)>) -> Value {
    Value::Object(es.into_iter().map(|(k, v)| (k.to_string(), v)).collect())
}

fn empty_route() -> HttpRoute {
    HttpRoute {
        name: None,
        match_: None,
        route: None,
        redirect: None,
        delegate: None,
        rewrite: None,
        timeout: None,
        retries: None,
        fault: None,
        mirror: None,
        mirror_percentage: None,
        cors_policy: None,
        headers: None,
        mirror_percent: None,
    }
}

#[test]
fn kinds_and_routes() {
    assert_eq!(ResourceKind::DestinationRule.kind(), "DestinationRule");
    assert_eq!(ResourceKind::Gateway.url_path_segment(), "gateways");
    assert_eq!(ResourceKind::VirtualService.url_path_segment(), "virtualservices");
    assert_eq!(ResourceKind::DestinationRule.url_path_segment(), "destinationrules");
    assert_eq!(ResourceKind::Gateway.api_version(), "networking.istio.io/v1beta1");
    assert_eq!(ResourceKind::Gateway.group(), "networking.istio.io");
    assert_eq!(ResourceKind::Gateway.version(), "v1beta1");
    assert!(ResourceKind::VirtualService.is_namespaced());
}

#[test]
fn gateway_document_round_trip() {
    let spec = GatewaySpec {
        servers: vec![Server {
            port: Port { number: 80, protocol: "HTTP".to_string(), name: "http".to_string(), target_port: None },
            bind: None,
            hosts: vec!["*".to_string()],
            tls: None,
            name: None,
        }],
        selector: KeyMap { entries: vec![("istio".to_string(), "ingressgateway".to_string())] },
    };
    let metadata = obj(vec![("name", s("public")), ("namespace", s("default"))]);
    let doc = encode_document(ResourceKind::Gateway, metadata.clone(), &Some(spec.clone()));
    assert_eq!(
        doc,
        obj(vec![
            ("apiVersion", s("networking.istio.io/v1beta1")),
            ("kind", s("Gateway")),
            ("metadata", metadata.clone()),
            (
                "spec",
                obj(vec![
                    (
                        "servers",
                        Value::Array(vec![obj(vec![
                            (
                                "port",
                                obj(vec![("number", Value::Int(80)), ("protocol", s("HTTP")), ("name", s("http"))])
                            ),
                            ("hosts", Value::Array(vec![s("*")])),
                        ])])
                    ),
                    ("selector", obj(vec![("istio", s("ingressgateway"))])),
                ])
            ),
        ])
    );
    let back: Document<GatewaySpec> = decode_document(ResourceKind::Gateway, &doc).unwrap();
    assert_eq!(back, Document { metadata, spec: Some(spec) });
}

#[test]
fn document_of_other_kind_is_rejected() {
    let doc = obj(vec![
        ("apiVersion", s("networking.istio.io/v1beta1")),
        ("kind", s("Gateway")),
        ("metadata", obj(vec![])),
    ]);
    let err = decode_document::<DestinationRuleSpec>(ResourceKind::DestinationRule, &doc).unwrap_err();
    assert_eq!(err, DecodeError::UnknownVariant { enum_name: "kind".to_string(), tag: "Gateway".to_string() });
    let doc = obj(vec![("apiVersion", s("v1")), ("kind", s("Gateway")), ("metadata", obj(vec![]))]);
    let err = decode_document::<GatewaySpec>(ResourceKind::Gateway, &doc).unwrap_err();
    assert_eq!(err, DecodeError::UnknownVariant { enum_name: "apiVersion".to_string(), tag: "v1".to_string() });
    let doc = obj(vec![("apiVersion", s("networking.istio.io/v1beta1")), ("kind", s("Gateway"))]);
    let err = decode_document::<GatewaySpec>(ResourceKind::Gateway, &doc).unwrap_err();
    assert_eq!(err, DecodeError::MissingRequiredField { field: "metadata".to_string() });
}

#[test]
fn document_without_spec_omits_it() {
    let doc = encode_document::<GatewaySpec>(ResourceKind::Gateway, obj(vec![]), &None);
    assert_eq!(
        doc,
        obj(vec![
            ("apiVersion", s("networking.istio.io/v1beta1")),
            ("kind", s("Gateway")),
            ("metadata", obj(vec![])),
        ])
    );
    let back = decode_document::<GatewaySpec>(ResourceKind::Gateway, &doc).unwrap();
    assert!(back.spec.is_none());
}

#[test]
fn virtual_service_with_fault_and_percent() {
    let half = Percent { bits: 50.5f64.to_bits() };
    let mut route = empty_route();
    route.route = Some(vec![HttpRouteDestination {
        destination: Destination { host: "reviews".to_string(), subset: Some("v2".to_string()), port: None },
        weight: Some(100),
        headers: None,
    }]);
    route.fault = Some(HttpFaultInjection {
        delay: None,
        abort: Some(FaultInjectionAbort { http_status: 503, percentage: Some(half) }),
    });
    route.mirror_percentage = Some(half);
    let spec = VirtualServiceSpec {
        hosts: Some(vec!["reviews".to_string()]),
        gateways: None,
        http: Some(vec![route]),
        tls: None,
        tcp: None,
        export_to: None,
    };
    let wire = spec.encode();
    let back = VirtualServiceSpec::decode(&wire, "spec").unwrap();
    assert_eq!(back, spec);
    assert_eq!(back.encode(), wire);
    let http = match &wire {
        Value::Object(es) => es.iter().find(|(k, _)| k == "http").unwrap().1.clone(),
        _ => panic!("not an object"),
    };
    match http {
        Value::Array(rs) => match &rs[0] {
            Value::Object(es) => {
                let keys: Vec<&str> = es.iter().map(|(k, _)| k.as_str()).collect();
                assert_eq!(keys, vec!["route", "fault", "mirrorPercentage"]);
                assert_eq!(es[2].1, Value::Real(50.5f64.to_bits()));
            },
            _ => panic!("not an object"),
        },
        _ => panic!("not an array"),
    }
}

#[test]
fn string_match_variants() {
    let m = StringMatch::prefix("/api".to_string());
    let wire = m.encode();
    assert_eq!(wire, obj(vec![("prefix", s("/api"))]));
    assert_eq!(StringMatch::decode(&wire, "uri").unwrap(), m);
    let both = obj(vec![("exact", s("/a")), ("regex", s(".*"))]);
    assert!(matches!(StringMatch::decode(&both, "uri"), Err(DecodeError::AmbiguousVariant { .. })));
}

#[test]
fn percent_rejects_integers() {
    let err = Percent::decode(&Value::Int(50), "percentage").unwrap_err();
    assert!(matches!(err, DecodeError::TypeMismatch { .. }));
}

#[test]
fn metadata_accessors() {
    let mut dr = DestinationRule {
        metadata: ObjectMeta { name: Some("ratings".to_string()), ..ObjectMeta::default() },
        spec: Some(DestinationRuleSpec {
            host: "ratings".to_string(),
            traffic_policy: TrafficPolicy {
                load_balancer: None,
                connection_pool: None,
                outlier_detection: None,
                tls: None,
                port_level_settings: None,
            },
            subsets: None,
            export_to: None,
        }),
        status: None,
    };
    assert_eq!(dr.metadata().name.as_deref(), Some("ratings"));
    dr.metadata_mut().namespace = Some("prod".to_string());
    assert_eq!(dr.metadata.namespace.as_deref(), Some("prod"));
    assert_eq!(dr.spec.as_ref().unwrap().host, "ratings");
}
