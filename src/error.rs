//! Decode errors and their model.
use vstd::prelude::*;
use crate::wire::{Json, Kind, Value, kind, kind_of};

verus! {

/// Why a wire value could not be decoded. Each error names the field, enum or union at fault.
#[derive(Clone, Debug, PartialEq, Eq)]
pub enum DecodeError {
    /// The wire value has another JSON kind than the schema asks for.
    TypeMismatch { field: String, expected: Kind, actual: Kind },
    /// An integer does not fit the field's integer type.
    OutOfRange { field: String, value: i128 },
    /// A field that the schema requires is absent.
    MissingRequiredField { field: String },
    /// A string that is not one of the enum's tags.
    UnknownVariant { enum_name: String, tag: String },
    /// No discriminating key of the union is present.
    NoMatchingVariant { union_name: String },
    /// More than one discriminating key of the union is present.
    AmbiguousVariant { union_name: String, tags: Vec<String> },
    /// A duration that does not read as digits followed by `h`, `m`, `s` or `ms`.
    InvalidDuration { raw: String },
    /// A map whose wire object repeats a key.
    DuplicateKey { map_name: String, key: String },
}

/// The mathematical model of a [`DecodeError`].
pub enum Failure {
    TypeMismatch { field: Seq<char>, expected: Kind, actual: Kind },
    OutOfRange { field: Seq<char>, value: int },
    MissingRequiredField { field: Seq<char> },
    UnknownVariant { enum_name: Seq<char>, tag: Seq<char> },
    NoMatchingVariant { union_name: Seq<char> },
    AmbiguousVariant { union_name: Seq<char>, tags: Seq<Seq<char>> },
    InvalidDuration { raw: Seq<char> },
    DuplicateKey { map_name: Seq<char>, key: Seq<char> },
}

impl View for DecodeError {
    type V = Failure;

    open spec fn view(&self) -> Failure {
        match self {
            DecodeError::TypeMismatch { field, expected, actual } => Failure::TypeMismatch {
                field: field@,
                expected: *expected,
                actual: *actual,
            },
            DecodeError::OutOfRange { field, value } => Failure::OutOfRange {
                field: field@,
                value: *value as int,
            },
            DecodeError::MissingRequiredField { field } => Failure::MissingRequiredField {
                field: field@,
            },
            DecodeError::UnknownVariant { enum_name, tag } => Failure::UnknownVariant {
                enum_name: enum_name@,
                tag: tag@,
            },
            DecodeError::NoMatchingVariant { union_name } => Failure::NoMatchingVariant {
                union_name: union_name@,
            },
            DecodeError::AmbiguousVariant { union_name, tags } => Failure::AmbiguousVariant {
                union_name: union_name@,
                tags: strings(tags@),
            },
            DecodeError::InvalidDuration { raw } => Failure::InvalidDuration { raw: raw@ },
            DecodeError::DuplicateKey { map_name, key } => Failure::DuplicateKey {
                map_name: map_name@,
                key: key@,
            },
        }
    }
}

/// The views of a sequence of strings.
pub open spec fn strings(ss: Seq<String>) -> Seq<Seq<char>> {
    Seq::new(ss.len(), |i: int| ss[i]@)
}

/// The failure for a wire value of the wrong kind.
pub open spec fn mismatch(at: Seq<char>, expected: Kind, w: Json) -> Failure {
    Failure::TypeMismatch { field: at, expected, actual: kind_of(w) }
}

pub fn type_mismatch(at: &str, expected: Kind, w: &Value) -> (r: DecodeError)
    ensures
        r@ == mismatch(at@, expected, w@),
{
    DecodeError::TypeMismatch { field: String::from_str(at), expected, actual: kind(w) }
}

} // verus!
