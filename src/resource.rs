//! The resource kinds, and their documents on the wire.
use vstd::prelude::*;
use k8s_openapi::apimachinery::pkg::apis::meta::v1::ObjectMeta;
use crate::codec::{Codec, has_key, is_tag, opt_dec, opt_enc, opt_field, opt_wf, put_opt, put_req, req_dec, req_field, empty_entries, lemma_opt_field};
use crate::destination_rule::DestinationRuleSpec;
use crate::error::{DecodeError, Failure, mismatch, type_mismatch};
use crate::gateway::GatewaySpec;
use crate::virtual_service::VirtualServiceSpec;
use crate::wire::{
    Json, Kind, Value, copy_value, entries, find, lookup, put, lemma_lookup_push, lemma_lookup_put,
    lemma_object_model,
};

verus! {

broadcast use {lemma_lookup_push, lemma_lookup_put, lemma_object_model, vstd::string::group_string_axioms};

/// Object metadata, owned by the Kubernetes client and carried through unchanged.
#[verifier::external_type_specification]
#[verifier::external_body]
pub struct ExObjectMeta(ObjectMeta);

/// Relies on the `Clone` impl of k8s_openapi's `ObjectMeta`, through which a resource is copied.
/// Nothing is assumed of the copy.
pub assume_specification[ <ObjectMeta as Clone>::clone ](m: &ObjectMeta) -> ObjectMeta;

/// The resource kinds that this library defines. All are namespaced and belong to the API group
/// `networking.istio.io`, version `v1beta1`.
#[derive(Clone, Copy, Debug, PartialEq, Eq, Structural)]
pub enum ResourceKind {
    DestinationRule,
    Gateway,
    VirtualService,
}

pub open spec fn api_version_text() -> Seq<char> {
    "networking.istio.io/v1beta1"@
}

impl ResourceKind {
    pub open spec fn kind_text(self) -> Seq<char> {
        match self {
            ResourceKind::DestinationRule => "DestinationRule"@,
            ResourceKind::Gateway => "Gateway"@,
            ResourceKind::VirtualService => "VirtualService"@,
        }
    }

    pub open spec fn plural_text(self) -> Seq<char> {
        match self {
            ResourceKind::DestinationRule => "destinationrules"@,
            ResourceKind::Gateway => "gateways"@,
            ResourceKind::VirtualService => "virtualservices"@,
        }
    }

    /// The `apiVersion` of documents of this kind.
    pub fn api_version(&self) -> (r: &'static str)
        ensures
            r@ == api_version_text(),
    {
        "networking.istio.io/v1beta1"
    }

    pub fn group(&self) -> (r: &'static str)
        ensures
            r@ == "networking.istio.io"@,
    {
        "networking.istio.io"
    }

    pub fn version(&self) -> (r: &'static str)
        ensures
            r@ == "v1beta1"@,
    {
        "v1beta1"
    }

    /// The `kind` of documents of this kind.
    pub fn kind(&self) -> (r: &'static str)
        ensures
            r@ == self.kind_text(),
    {
        match self {
            ResourceKind::DestinationRule => "DestinationRule",
            ResourceKind::Gateway => "Gateway",
            ResourceKind::VirtualService => "VirtualService",
        }
    }

    /// The plural segment of the kind's URL path.
    pub fn url_path_segment(&self) -> (r: &'static str)
        ensures
            r@ == self.plural_text(),
    {
        match self {
            ResourceKind::DestinationRule => "destinationrules",
            ResourceKind::Gateway => "gateways",
            ResourceKind::VirtualService => "virtualservices",
        }
    }

    /// Whether resources of the kind live in a namespace.
    pub fn is_namespaced(&self) -> (r: bool)
        ensures
            r,
    {
        true
    }
}

/// A `DestinationRule` resource: metadata, spec, and a status that is always empty.
#[derive(Clone, Debug, PartialEq)]
pub struct DestinationRule {
    pub metadata: ObjectMeta,
    pub spec: Option<DestinationRuleSpec>,
    pub status: Option<()>,
}

impl DestinationRule {
    pub fn metadata(&self) -> (r: &ObjectMeta)
        ensures
            *r == self.metadata,
    {
        &self.metadata
    }

    pub fn metadata_mut(&mut self) -> (r: &mut ObjectMeta)
        ensures
            *r == old(self).metadata,
            final(self).metadata == *final(r),
            final(self).spec == old(self).spec,
            final(self).status == old(self).status,
    {
        &mut self.metadata
    }
}

/// A `Gateway` resource: metadata, spec, and a status that is always empty.
#[derive(Clone, Debug, PartialEq)]
pub struct Gateway {
    pub metadata: ObjectMeta,
    pub spec: Option<GatewaySpec>,
    pub status: Option<()>,
}

impl Gateway {
    pub fn metadata(&self) -> (r: &ObjectMeta)
        ensures
            *r == self.metadata,
    {
        &self.metadata
    }

    pub fn metadata_mut(&mut self) -> (r: &mut ObjectMeta)
        ensures
            *r == old(self).metadata,
            final(self).metadata == *final(r),
            final(self).spec == old(self).spec,
            final(self).status == old(self).status,
    {
        &mut self.metadata
    }
}

/// A `VirtualService` resource: metadata, spec, and a status that is always empty.
#[derive(Clone, Debug, PartialEq)]
pub struct VirtualService {
    pub metadata: ObjectMeta,
    pub spec: Option<VirtualServiceSpec>,
    pub status: Option<()>,
}

impl VirtualService {
    pub fn metadata(&self) -> (r: &ObjectMeta)
        ensures
            *r == self.metadata,
    {
        &self.metadata
    }

    pub fn metadata_mut(&mut self) -> (r: &mut ObjectMeta)
        ensures
            *r == old(self).metadata,
            final(self).metadata == *final(r),
            final(self).spec == old(self).spec,
            final(self).status == old(self).status,
    {
        &mut self.metadata
    }
}

/// A decoded document: the wire form of its metadata, and its spec.
#[derive(Clone, Debug, PartialEq, Eq)]
pub struct Document<T> {
    pub metadata: Value,
    pub spec: Option<T>,
}

/// The wire document of a resource: `apiVersion`, `kind`, `metadata` and, when present, `spec`.
/// The status of these resources is always empty and is not written.
pub open spec fn document(kind: ResourceKind, metadata: Json, spec: Option<Json>) -> Json {
    let s = Seq::empty();
    let s = s.push(("apiVersion"@, Json::Str(api_version_text())));
    let s = s.push(("kind"@, Json::Str(kind.kind_text())));
    let s = s.push(("metadata"@, metadata));
    let s = put(s, "spec"@, spec);
    Json::Object(s)
}

/// Decoding a document of the given kind: its metadata as it stands, and its spec decoded.
/// A document of another `apiVersion` or `kind` fails with the text found.
pub open spec fn dec_document<T: Codec>(kind: ResourceKind, w: Json) -> Result<(Json, Option<Json>), Failure> {
    match w {
        Json::Object(es) => {
            let v = req_dec::<String>(es, Seq::empty(), "apiVersion"@);
            let k = req_dec::<String>(es, Seq::empty(), "kind"@);
            if v is Err {
                Err(v->Err_0)
            } else if v->Ok_0 != Json::Str(api_version_text()) {
                Err(Failure::UnknownVariant { enum_name: "apiVersion"@, tag: v->Ok_0->Str_0 })
            } else if k is Err {
                Err(k->Err_0)
            } else if k->Ok_0 != Json::Str(kind.kind_text()) {
                Err(Failure::UnknownVariant { enum_name: "kind"@, tag: k->Ok_0->Str_0 })
            } else {
                match lookup(es, "metadata"@) {
                    None => Err(Failure::MissingRequiredField { field: "metadata"@ }),
                    Some(m) => {
                        let s = opt_dec::<T>(es, Seq::empty(), "spec"@);
                        if s is Err {
                            Err(s->Err_0)
                        } else {
                            Ok((m, s->Ok_0))
                        }
                    },
                }
            }
        },
        _ => Err(mismatch("document"@, Kind::Object, w)),
    }
}

/// Writes the wire document of a resource of kind `kind`.
pub fn encode_document<T: Codec>(kind: ResourceKind, metadata: Value, spec: &Option<T>) -> (r: Value)
    ensures
        r@ == document(kind, metadata@, opt_enc(*spec)),
{
    let mut es = empty_entries();
    put_req(&mut es, "apiVersion", Value::Str(String::from_str(kind.api_version())));
    put_req(&mut es, "kind", Value::Str(String::from_str(kind.kind())));
    put_req(&mut es, "metadata", metadata);
    put_opt(&mut es, "spec", spec);
    Value::Object(es)
}

/// Reads the wire document of a resource of kind `kind`.
pub fn decode_document<T: Codec>(kind: ResourceKind, w: &Value) -> (r: Result<Document<T>, DecodeError>)
    ensures
        match r {
            Ok(d) => opt_wf(d.spec) && dec_document::<T>(kind, w@) == Ok::<(Json, Option<Json>), Failure>(
                (d.metadata@, opt_enc(d.spec)),
            ),
            Err(e) => dec_document::<T>(kind, w@) == Err::<(Json, Option<Json>), Failure>(e@),
        },
{
    proof {
        reveal_strlit("");
    }
    assert(""@ =~= Seq::<char>::empty());
    match w {
        Value::Object(es) => {
            let v = match req_field::<String>(es, "", "apiVersion") {
                Ok(x) => x,
                Err(e) => return Err(e),
            };
            if !is_tag(&v, kind.api_version()) {
                return Err(DecodeError::UnknownVariant { enum_name: String::from_str("apiVersion"), tag: v });
            }
            let k = match req_field::<String>(es, "", "kind") {
                Ok(x) => x,
                Err(e) => return Err(e),
            };
            if !is_tag(&k, kind.kind()) {
                return Err(DecodeError::UnknownVariant { enum_name: String::from_str("kind"), tag: k });
            }
            assert(entries(es@).take(es.len() as int) =~= entries(es@));
            let metadata = match find(es, "metadata", es.len()) {
                None => {
                    return Err(DecodeError::MissingRequiredField { field: String::from_str("metadata") });
                },
                Some(m) => copy_value(m),
            };
            let spec = match opt_field::<T>(es, "", "spec") {
                Ok(x) => x,
                Err(e) => return Err(e),
            };
            Ok(Document { metadata, spec })
        },
        _ => Err(type_mismatch("document", Kind::Object, w)),
    }
}

/// Round trip of documents: for every kind, the document written from metadata and a spec reads
/// back as that metadata and that spec.
pub proof fn lemma_document_round_trip<T: Codec>(kind: ResourceKind, metadata: Json, spec: Option<T>)
    requires
        opt_wf(spec),
    ensures
        dec_document::<T>(kind, document(kind, metadata, opt_enc(spec))) == Ok::<(Json, Option<Json>), Failure>(
            (metadata, opt_enc(spec)),
        ),
{
    reveal_strlit("apiVersion");
    reveal_strlit("kind");
    reveal_strlit("metadata");
    reveal_strlit("spec");
    assert("apiVersion"@.len() == 10 && "kind"@.len() == 4 && "metadata"@.len() == 8 && "spec"@.len() == 4);
    assert("kind"@[0] == 'k' && "spec"@[0] == 's');
    let s = Seq::empty();
    let s = s.push(("apiVersion"@, Json::Str(api_version_text())));
    let s = s.push(("kind"@, Json::Str(kind.kind_text())));
    let s = s.push(("metadata"@, metadata));
    let s = put(s, "spec"@, opt_enc(spec));
    lemma_opt_field::<T>(s, Seq::empty(), "spec"@, spec);
}

/// The spec of a document omits `spec` when the spec is absent.
pub proof fn lemma_document_omits_absent_spec(kind: ResourceKind, metadata: Json)
    ensures
        !has_key(document(kind, metadata, None), "spec"@),
{
    reveal_strlit("apiVersion");
    reveal_strlit("kind");
    reveal_strlit("metadata");
    reveal_strlit("spec");
    assert("apiVersion"@.len() == 10 && "kind"@.len() == 4 && "metadata"@.len() == 8 && "spec"@.len() == 4);
    assert("kind"@[0] == 'k' && "spec"@[0] == 's');
}

} // verus!
