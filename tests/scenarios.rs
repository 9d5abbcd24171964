use kube_extra::codec::Codec;
use kube_extra::collections::KeyMap;
use kube_extra::destination_rule::{
    ClientTLSSettings, DestinationRuleSpec, LoadBalancerSettings, TrafficPolicy,
};
use kube_extra::duration::{Duration, decimal_string, format_duration, parse_duration_text};
use kube_extra::error::DecodeError;
use kube_extra::load_balancer_settings::{ConsistentHashLB, HTTPCookie, SimpleLB};
use kube_extra::wire::{Kind, Value};

fn s(t: &str) -> Value {
    Value::Str(t.to_string())
}

fn obj(es: Vec<(&str, Value)>) -> Value {
    Value::Object(es.into_iter().map(|(k, v)| (k.to_string(), v)).collect())
}

fn empty_policy() -> TrafficPolicy {
    TrafficPolicy {
        load_balancer: None,
        connection_pool: None,
        outlier_detection: None,
        tls: None,
        port_level_settings: None,
    }
}

#[test]
fn end_to_end_destination_rule_spec() {
    let wire = obj(vec![
        ("host", s("ratings.prod.svc.cluster.local")),
        ("trafficPolicy", obj(vec![("loadBalancer", obj(vec![("simple", s("LEAST_CONN"))]))])),
    ]);
    let spec = DestinationRuleSpec::decode(&wire, "spec").unwrap();
    assert_eq!(spec.host, "ratings.prod.svc.cluster.local");
    assert_eq!(
        spec.traffic_policy.load_balancer,
        Some(LoadBalancerSettings::Simple { simple: SimpleLB::LEAST_CONN, locality_lb_setting: None })
    );
    assert!(spec.subsets.is_none());
    assert!(spec.export_to.is_none());
    assert_eq!(spec.encode(), wire);
}

#[test]
fn union_exclusivity_use_source_ip() {
    let lb = LoadBalancerSettings::ConsistentHash {
        consistent_hash: ConsistentHashLB::UseSourceIp { use_source_ip: true, minimum_ring_size: Some(1024) },
        locality_lb_setting: None,
    };
    let wire = lb.encode();
    assert_eq!(
        wire,
        obj(vec![(
            "consistentHash",
            obj(vec![("useSourceIp", Value::Bool(true)), ("minimumRingSize", Value::Int(1024))])
        )])
    );
    let back = LoadBalancerSettings::decode(&wire, "loadBalancer").unwrap();
    match back {
        LoadBalancerSettings::ConsistentHash { consistent_hash, .. } => {
            assert_eq!(
                consistent_hash,
                ConsistentHashLB::UseSourceIp { use_source_ip: true, minimum_ring_size: Some(1024) }
            );
        },
        other => panic!("unexpected variant {:?}", other),
    }
}

#[test]
fn unknown_tls_mode_is_rejected() {
    let wire = obj(vec![("mode", s("BOGUS"))]);
    let err = ClientTLSSettings::decode(&wire, "tls").unwrap_err();
    assert_eq!(
        err,
        DecodeError::UnknownVariant { enum_name: "TLSmode".to_string(), tag: "BOGUS".to_string() }
    );
}

#[test]
fn tls_mode_tags_are_case_sensitive() {
    let wire = obj(vec![("mode", s("simple"))]);
    assert!(matches!(ClientTLSSettings::decode(&wire, "tls"), Err(DecodeError::UnknownVariant { .. })));
    let ok = obj(vec![("mode", s("SIMPLE"))]);
    let tls = ClientTLSSettings::decode(&ok, "tls").unwrap();
    assert_eq!(tls.encode(), ok);
}

#[test]
fn ambiguous_consistent_hash_is_rejected() {
    let wire = obj(vec![
        ("httpCookie", obj(vec![("name", s("user")), ("ttl", s("10s"))])),
        ("useSourceIp", Value::Bool(true)),
    ]);
    let err = ConsistentHashLB::decode(&wire, "consistentHash").unwrap_err();
    assert_eq!(
        err,
        DecodeError::AmbiguousVariant {
            union_name: "ConsistentHashLB".to_string(),
            tags: vec!["httpCookie".to_string(), "useSourceIp".to_string()],
        }
    );
}

#[test]
fn consistent_hash_without_discriminator_is_rejected() {
    let wire = obj(vec![("minimumRingSize", Value::Int(16))]);
    let err = ConsistentHashLB::decode(&wire, "consistentHash").unwrap_err();
    assert_eq!(err, DecodeError::NoMatchingVariant { union_name: "ConsistentHashLB".to_string() });
}

#[test]
fn http_cookie_variant_round_trips() {
    let lb = ConsistentHashLB::HttpCookie {
        http_cookie: HTTPCookie { name: "user".to_string(), path: None, ttl: Duration { millis: 10_000 } },
        minimum_ring_size: None,
    };
    let wire = lb.encode();
    assert_eq!(wire, obj(vec![("httpCookie", obj(vec![("name", s("user")), ("ttl", s("10s"))]))]));
    assert_eq!(ConsistentHashLB::decode(&wire, "consistentHash").unwrap(), lb);
}

#[test]
fn duration_parsing_boundary() {
    assert_eq!(parse_duration_text("30ms"), Some(Duration { millis: 30 }));
    assert_eq!(parse_duration_text("0ms"), Some(Duration { millis: 0 }));
    assert_eq!(parse_duration_text("30"), None);
    let err = Duration::decode(&s("30"), "timeout").unwrap_err();
    assert_eq!(err, DecodeError::InvalidDuration { raw: "30".to_string() });
    assert_eq!(Duration::decode(&s("30ms"), "timeout").unwrap(), Duration { millis: 30 });
    assert_eq!(Duration::decode(&s("0ms"), "timeout").unwrap(), Duration { millis: 0 });
}

#[test]
fn duration_units() {
    assert_eq!(parse_duration_text("1h"), Some(Duration { millis: 3_600_000 }));
    assert_eq!(parse_duration_text("2m"), Some(Duration { millis: 120_000 }));
    assert_eq!(parse_duration_text("5s"), Some(Duration { millis: 5_000 }));
    assert_eq!(parse_duration_text("ms"), None);
    assert_eq!(parse_duration_text("h"), None);
    assert_eq!(parse_duration_text("1.5s"), None);
    assert_eq!(parse_duration_text("-1s"), None);
    assert_eq!(parse_duration_text("10d"), None);
    assert_eq!(parse_duration_text(""), None);
    assert_eq!(parse_duration_text("18446744073709551615ms"), Some(Duration { millis: u64::MAX }));
    assert_eq!(parse_duration_text("18446744073709551616ms"), None);
    assert_eq!(parse_duration_text("5124095576030432h"), None);
}

#[test]
fn duration_canonical_form() {
    assert_eq!(format_duration(Duration { millis: 60_000 }), "1m");
    assert_eq!(format_duration(Duration { millis: 0 }), "0ms");
    assert_eq!(format_duration(Duration { millis: 30 }), "30ms");
    assert_eq!(format_duration(Duration { millis: 1_500 }), "1500ms");
    assert_eq!(format_duration(Duration { millis: 7_200_000 }), "2h");
    assert_eq!(format_duration(Duration { millis: 90_000 }), "90s");
    let d = Duration::decode(&s("60000ms"), "interval").unwrap();
    assert_eq!(d.encode(), s("1m"));
    assert_eq!(decimal_string(1234567890), "1234567890");
    assert_eq!(decimal_string(0), "0");
}

#[test]
fn missing_required_field() {
    let wire = obj(vec![("host", s("reviews"))]);
    let err = DestinationRuleSpec::decode(&wire, "spec").unwrap_err();
    assert_eq!(err, DecodeError::MissingRequiredField { field: "spec.trafficPolicy".to_string() });
}

#[test]
fn type_mismatch_reports_kinds() {
    let wire = obj(vec![("host", Value::Int(3)), ("trafficPolicy", obj(vec![]))]);
    let err = DestinationRuleSpec::decode(&wire, "spec").unwrap_err();
    assert_eq!(
        err,
        DecodeError::TypeMismatch { field: "spec.host".to_string(), expected: Kind::String, actual: Kind::Integer }
    );
    let err = DestinationRuleSpec::decode(&s("x"), "spec").unwrap_err();
    assert_eq!(
        err,
        DecodeError::TypeMismatch { field: "spec".to_string(), expected: Kind::Object, actual: Kind::String }
    );
}

#[test]
fn null_and_missing_optional_fields_are_absent() {
    let wire = obj(vec![
        ("host", s("reviews")),
        ("trafficPolicy", obj(vec![("tls", Value::Null)])),
        ("subsets", Value::Null),
        ("unknownField", Value::Int(1)),
    ]);
    let spec = DestinationRuleSpec::decode(&wire, "spec").unwrap();
    assert!(spec.subsets.is_none());
    assert!(spec.traffic_policy.tls.is_none());
    assert_eq!(spec.encode(), obj(vec![("host", s("reviews")), ("trafficPolicy", obj(vec![]))]));
}

#[test]
fn absent_fields_are_omitted() {
    let spec = DestinationRuleSpec {
        host: "reviews".to_string(),
        traffic_policy: empty_policy(),
        subsets: None,
        export_to: None,
    };
    let wire = spec.encode();
    match &wire {
        Value::Object(es) => {
            assert_eq!(es.len(), 2);
            assert!(es.iter().all(|(k, _)| k != "subsets" && k != "exportTo"));
            assert!(es.iter().all(|(_, v)| *v != Value::Null));
        },
        _ => panic!("not an object"),
    }
}

#[test]
fn duplicate_map_key_is_rejected() {
    let wire = obj(vec![("app", s("a")), ("tier", s("b")), ("app", s("c"))]);
    let err = KeyMap::<String>::decode(&wire, "labels").unwrap_err();
    assert_eq!(err, DecodeError::DuplicateKey { map_name: "labels".to_string(), key: "app".to_string() });
}

#[test]
fn map_keeps_insertion_order() {
    let wire = obj(vec![("zone", s("a")), ("app", s("b"))]);
    let m = KeyMap::<String>::decode(&wire, "labels").unwrap();
    assert_eq!(
        m.entries,
        vec![("zone".to_string(), "a".to_string()), ("app".to_string(), "b".to_string())]
    );
    assert_eq!(m.encode(), wire);
}

#[test]
fn integer_out_of_range() {
    let err = i32::decode(&Value::Int(1 << 40), "port").unwrap_err();
    assert_eq!(err, DecodeError::OutOfRange { field: "port".to_string(), value: 1 << 40 });
    let err = u32::decode(&Value::Int(-1), "number").unwrap_err();
    assert_eq!(err, DecodeError::OutOfRange { field: "number".to_string(), value: -1 });
    assert_eq!(u64::decode(&Value::Int(u64::MAX as i128), "n").unwrap(), u64::MAX);
}

#[test]
fn sequence_reports_first_bad_item() {
    let wire = Value::Array(vec![s("a"), Value::Int(1), Value::Bool(true)]);
    let err = Vec::<String>::decode(&wire, "hosts").unwrap_err();
    assert_eq!(
        err,
        DecodeError::TypeMismatch { field: "hosts".to_string(), expected: Kind::String, actual: Kind::Integer }
    );
    let ok = Value::Array(vec![s("a"), s("b")]);
    assert_eq!(Vec::<String>::decode(&ok, "hosts").unwrap(), vec!["a".to_string(), "b".to_string()]);
}

#[test]
fn errors_carry_the_field_path() {
    let wire = obj(vec![
        ("host", s("reviews")),
        ("trafficPolicy", obj(vec![("tls", obj(vec![("mode", Value::Int(3))]))])),
    ]);
    let err = DestinationRuleSpec::decode(&wire, "").unwrap_err();
    assert_eq!(
        err,
        DecodeError::TypeMismatch {
            field: "trafficPolicy.tls.mode".to_string(),
            expected: Kind::String,
            actual: Kind::Integer,
        }
    );
    let wire = obj(vec![("host", s("reviews")), ("trafficPolicy", obj(vec![("tls", obj(vec![]))]))]);
    let err = DestinationRuleSpec::decode(&wire, "").unwrap_err();
    assert_eq!(err, DecodeError::MissingRequiredField { field: "trafficPolicy.tls.mode".to_string() });
}

#[test]
fn key_map_insert_and_get() {
    let mut m: KeyMap<String> = KeyMap::new();
    m.insert("app".to_string(), "ratings".to_string());
    m.insert("tier".to_string(), "backend".to_string());
    m.insert("app".to_string(), "reviews".to_string());
    assert_eq!(m.len(), 2);
    assert_eq!(m.get("app"), Some(&"reviews".to_string()));
    assert_eq!(m.get("zone"), None);
    assert_eq!(m.encode(), obj(vec![("app", s("reviews")), ("tier", s("backend"))]));
}
