//! Typed Istio networking resources (`DestinationRule`, `Gateway`, `VirtualService`) and their
//! verified wire codec.
//!
//! The codec core maps typed values to and from the JSON data model of the Kubernetes API:
//! optional fields are omitted when absent, fields carry their camelCase wire names, enums are
//! bare strings, unions are objects told apart by a discriminating key, durations are strings
//! such as `"30ms"`. Every type's decoder is proved to agree with its specification, and decoding
//! the encoding of a value is proved to give the value back.
pub mod wire;
pub mod error;
pub mod codec;
pub mod collections;
pub mod duration;

pub mod client_tls_settings;
pub mod connection_pool_settings;
pub mod destination_rule;
pub mod gateway;
pub mod load_balancer_settings;
pub mod locality_load_balancer_settings;
pub mod protobuf;
pub mod resource;
pub mod traffic_policy;
pub mod virtual_service;
