//! A load balancer at the edge of the mesh.
use vstd::prelude::*;
use crate::codec::{
    Codec, opt_dec, opt_enc, opt_field, opt_wf, put_opt, put_req, req_dec, req_field,
    empty_entries, lemma_opt_field, lemma_req_field, has_key, is_tag,
};
use crate::error::{DecodeError, Failure, mismatch, type_mismatch};
use crate::wire::{Json, Kind, Value, put, lemma_lookup_push, lemma_lookup_put, lemma_object_model};
use crate::collections::KeyMap;

verus! {

broadcast use {lemma_lookup_push, lemma_lookup_put, lemma_object_model, vstd::string::group_string_axioms};

/// The user-supplied part of a gateway.
#[derive(Clone, Debug, PartialEq, Eq)]
pub struct GatewaySpec {
    /// The servers of the gateway.
    pub servers: Vec<Server>,
    /// Labels that select the pods on which the configuration is applied.
    pub selector: KeyMap<String>,
}

impl Codec for GatewaySpec {
    open spec fn wf(&self) -> bool {
        self.servers.wf() && self.selector.wf()
    }

    open spec fn enc(&self) -> Json {
        let s = Seq::empty();
        let s = s.push(("servers"@, self.servers.enc()));
        let s = s.push(("selector"@, self.selector.enc()));
        Json::Object(s)
    }

    open spec fn dec(w: Json, at: Seq<char>) -> Result<Json, Failure> {
        match w {
            Json::Object(es) => {
                let d_servers = req_dec::<Vec<Server>>(es, at, "servers"@);
                let d_selector = req_dec::<KeyMap<String>>(es, at, "selector"@);
                if d_servers is Err {
                    Err(d_servers->Err_0)
                } else if d_selector is Err {
                    Err(d_selector->Err_0)
                } else {
                    let s = Seq::empty();
                    let s = s.push(("servers"@, d_servers->Ok_0));
                    let s = s.push(("selector"@, d_selector->Ok_0));
                    Ok(Json::Object(s))
                }
            },
            _ => Err(mismatch(at, Kind::Object, w)),
        }
    }

    proof fn lemma_round_trip(&self, at: Seq<char>) {
        GatewaySpec::lemma_wire_keys();
        let s = Seq::empty();
        let s = s.push(("servers"@, self.servers.enc()));
        let s = s.push(("selector"@, self.selector.enc()));
        lemma_req_field::<Vec<Server>>(s, at, "servers"@, self.servers);
        lemma_req_field::<KeyMap<String>>(s, at, "selector"@, self.selector);
    }

    fn encode(&self) -> (r: Value) {
        let mut es = empty_entries();
        put_req(&mut es, "servers", self.servers.encode());
        put_req(&mut es, "selector", self.selector.encode());
        Value::Object(es)
    }

    fn decode(w: &Value, at: &str) -> (r: Result<GatewaySpec, DecodeError>) {
        match w {
            Value::Object(es) => {
                let servers = match req_field::<Vec<Server>>(es, at, "servers") {
                    Ok(x) => x,
                    Err(e) => return Err(e),
                };
                let selector = match req_field::<KeyMap<String>>(es, at, "selector") {
                    Ok(x) => x,
                    Err(e) => return Err(e),
                };
                Ok(GatewaySpec { servers, selector })
            },
            _ => Err(type_mismatch(at, Kind::Object, w)),
        }
    }
}

impl GatewaySpec {
    /// The wire keys of the type, as the proofs about its entries need them.
    proof fn lemma_wire_keys()
        ensures
            "servers"@.len() == 7,
            "selector"@.len() == 8,
    {
        reveal_strlit("servers");
        reveal_strlit("selector");
    }
}

/// The properties of a proxy server.
#[derive(Clone, Debug, PartialEq, Eq)]
pub struct Server {
    /// The port on which the proxy listens.
    pub port: Port,
    /// The address or socket to which the listener binds.
    pub bind: Option<String>,
    /// The hosts exposed by the gateway.
    pub hosts: Vec<String>,
    /// TLS settings of the server.
    pub tls: Option<ServerTLSSettings>,
    /// An optional name of the server.
    pub name: Option<String>,
}

impl Codec for Server {
    open spec fn wf(&self) -> bool {
        self.port.wf() && self.hosts.wf() && opt_wf(self.tls)
    }

    open spec fn enc(&self) -> Json {
        let s = Seq::empty();
        let s = s.push(("port"@, self.port.enc()));
        let s = put(s, "bind"@, opt_enc(self.bind));
        let s = s.push(("hosts"@, self.hosts.enc()));
        let s = put(s, "tls"@, opt_enc(self.tls));
        let s = put(s, "name"@, opt_enc(self.name));
        Json::Object(s)
    }

    open spec fn dec(w: Json, at: Seq<char>) -> Result<Json, Failure> {
        match w {
            Json::Object(es) => {
                let d_port = req_dec::<Port>(es, at, "port"@);
                let d_bind = opt_dec::<String>(es, at, "bind"@);
                let d_hosts = req_dec::<Vec<String>>(es, at, "hosts"@);
                let d_tls = opt_dec::<ServerTLSSettings>(es, at, "tls"@);
                let d_name = opt_dec::<String>(es, at, "name"@);
                if d_port is Err {
                    Err(d_port->Err_0)
                } else if d_bind is Err {
                    Err(d_bind->Err_0)
                } else if d_hosts is Err {
                    Err(d_hosts->Err_0)
                } else if d_tls is Err {
                    Err(d_tls->Err_0)
                } else if d_name is Err {
                    Err(d_name->Err_0)
                } else {
                    let s = Seq::empty();
                    let s = s.push(("port"@, d_port->Ok_0));
                    let s = put(s, "bind"@, d_bind->Ok_0);
                    let s = s.push(("hosts"@, d_hosts->Ok_0));
                    let s = put(s, "tls"@, d_tls->Ok_0);
                    let s = put(s, "name"@, d_name->Ok_0);
                    Ok(Json::Object(s))
                }
            },
            _ => Err(mismatch(at, Kind::Object, w)),
        }
    }

    proof fn lemma_round_trip(&self, at: Seq<char>) {
        Server::lemma_wire_keys();
        let s = Seq::empty();
        let s = s.push(("port"@, self.port.enc()));
        let s = put(s, "bind"@, opt_enc(self.bind));
        let s = s.push(("hosts"@, self.hosts.enc()));
        let s = put(s, "tls"@, opt_enc(self.tls));
        let s = put(s, "name"@, opt_enc(self.name));
        lemma_req_field::<Port>(s, at, "port"@, self.port);
        lemma_opt_field::<String>(s, at, "bind"@, self.bind);
        lemma_req_field::<Vec<String>>(s, at, "hosts"@, self.hosts);
        lemma_opt_field::<ServerTLSSettings>(s, at, "tls"@, self.tls);
        lemma_opt_field::<String>(s, at, "name"@, self.name);
    }

    fn encode(&self) -> (r: Value) {
        let mut es = empty_entries();
        put_req(&mut es, "port", self.port.encode());
        put_opt(&mut es, "bind", &self.bind);
        put_req(&mut es, "hosts", self.hosts.encode());
        put_opt(&mut es, "tls", &self.tls);
        put_opt(&mut es, "name", &self.name);
        Value::Object(es)
    }

    fn decode(w: &Value, at: &str) -> (r: Result<Server, DecodeError>) {
        match w {
            Value::Object(es) => {
                let port = match req_field::<Port>(es, at, "port") {
                    Ok(x) => x,
                    Err(e) => return Err(e),
                };
                let bind = match opt_field::<String>(es, at, "bind") {
                    Ok(x) => x,
                    Err(e) => return Err(e),
                };
                let hosts = match req_field::<Vec<String>>(es, at, "hosts") {
                    Ok(x) => x,
                    Err(e) => return Err(e),
                };
                let tls = match opt_field::<ServerTLSSettings>(es, at, "tls") {
                    Ok(x) => x,
                    Err(e) => return Err(e),
                };
                let name = match opt_field::<String>(es, at, "name") {
                    Ok(x) => x,
                    Err(e) => return Err(e),
                };
                Ok(Server { port, bind, hosts, tls, name })
            },
            _ => Err(type_mismatch(at, Kind::Object, w)),
        }
    }
}

impl Server {
    /// The wire keys of the type, as the proofs about its entries need them.
    proof fn lemma_wire_keys()
        ensures
            "port"@.len() == 4,
            "port"@[0] == 'p',
            "bind"@.len() == 4,
            "bind"@[0] == 'b',
            "hosts"@.len() == 5,
            "tls"@.len() == 3,
            "name"@.len() == 4,
            "name"@[0] == 'n',
    {
        reveal_strlit("port");
        reveal_strlit("bind");
        reveal_strlit("hosts");
        reveal_strlit("tls");
        reveal_strlit("name");
    }

    /// A field that is absent leaves no key in the wire object.
    pub proof fn lemma_absent_fields_omitted(&self)
        ensures
            self.bind is None ==> !has_key(self.enc(), "bind"@),
            self.tls is None ==> !has_key(self.enc(), "tls"@),
            self.name is None ==> !has_key(self.enc(), "name"@),
    {
        Server::lemma_wire_keys();
    }
}

/// The properties of a specific port of a service.
#[derive(Clone, Debug, PartialEq, Eq)]
pub struct Port {
    /// A valid non-negative port number.
    pub number: i32,
    /// The protocol exposed on the port.
    pub protocol: String,
    /// Label assigned to the port.
    pub name: String,
    /// The port number on the endpoint.
    pub target_port: Option<u32>,
}

impl Codec for Port {
    open spec fn wf(&self) -> bool {
        true
    }

    open spec fn enc(&self) -> Json {
        let s = Seq::empty();
        let s = s.push(("number"@, self.number.enc()));
        let s = s.push(("protocol"@, self.protocol.enc()));
        let s = s.push(("name"@, self.name.enc()));
        let s = put(s, "targetPort"@, opt_enc(self.target_port));
        Json::Object(s)
    }

    open spec fn dec(w: Json, at: Seq<char>) -> Result<Json, Failure> {
        match w {
            Json::Object(es) => {
                let d_number = req_dec::<i32>(es, at, "number"@);
                let d_protocol = req_dec::<String>(es, at, "protocol"@);
                let d_name = req_dec::<String>(es, at, "name"@);
                let d_target_port = opt_dec::<u32>(es, at, "targetPort"@);
                if d_number is Err {
                    Err(d_number->Err_0)
                } else if d_protocol is Err {
                    Err(d_protocol->Err_0)
                } else if d_name is Err {
                    Err(d_name->Err_0)
                } else if d_target_port is Err {
                    Err(d_target_port->Err_0)
                } else {
                    let s = Seq::empty();
                    let s = s.push(("number"@, d_number->Ok_0));
                    let s = s.push(("protocol"@, d_protocol->Ok_0));
                    let s = s.push(("name"@, d_name->Ok_0));
                    let s = put(s, "targetPort"@, d_target_port->Ok_0);
                    Ok(Json::Object(s))
                }
            },
            _ => Err(mismatch(at, Kind::Object, w)),
        }
    }

    proof fn lemma_round_trip(&self, at: Seq<char>) {
        Port::lemma_wire_keys();
        let s = Seq::empty();
        let s = s.push(("number"@, self.number.enc()));
        let s = s.push(("protocol"@, self.protocol.enc()));
        let s = s.push(("name"@, self.name.enc()));
        let s = put(s, "targetPort"@, opt_enc(self.target_port));
        lemma_req_field::<i32>(s, at, "number"@, self.number);
        lemma_req_field::<String>(s, at, "protocol"@, self.protocol);
        lemma_req_field::<String>(s, at, "name"@, self.name);
        lemma_opt_field::<u32>(s, at, "targetPort"@, self.target_port);
    }

    fn encode(&self) -> (r: Value) {
        let mut es = empty_entries();
        put_req(&mut es, "number", self.number.encode());
        put_req(&mut es, "protocol", self.protocol.encode());
        put_req(&mut es, "name", self.name.encode());
        put_opt(&mut es, "targetPort", &self.target_port);
        Value::Object(es)
    }

    fn decode(w: &Value, at: &str) -> (r: Result<Port, DecodeError>) {
        match w {
            Value::Object(es) => {
                let number = match req_field::<i32>(es, at, "number") {
                    Ok(x) => x,
                    Err(e) => return Err(e),
                };
                let protocol = match req_field::<String>(es, at, "protocol") {
                    Ok(x) => x,
                    Err(e) => return Err(e),
                };
                let name = match req_field::<String>(es, at, "name") {
                    Ok(x) => x,
                    Err(e) => return Err(e),
                };
                let target_port = match opt_field::<u32>(es, at, "targetPort") {
                    Ok(x) => x,
                    Err(e) => return Err(e),
                };
                Ok(Port { number, protocol, name, target_port })
            },
            _ => Err(type_mismatch(at, Kind::Object, w)),
        }
    }
}

impl Port {
    /// The wire keys of the type, as the proofs about its entries need them.
    proof fn lemma_wire_keys()
        ensures
            "number"@.len() == 6,
            "protocol"@.len() == 8,
            "name"@.len() == 4,
            "targetPort"@.len() == 10,
    {
        reveal_strlit("number");
        reveal_strlit("protocol");
        reveal_strlit("name");
        reveal_strlit("targetPort");
    }

    /// A field that is absent leaves no key in the wire object.
    pub proof fn lemma_absent_fields_omitted(&self)
        ensures
            self.target_port is None ==> !has_key(self.enc(), "targetPort"@),
    {
        Port::lemma_wire_keys();
    }
}

/// TLS settings of a gateway server.
#[derive(Clone, Debug, PartialEq, Eq)]
pub struct ServerTLSSettings {
    /// Whether HTTP requests are redirected to HTTPS.
    pub https_redirect: Option<bool>,
    /// Whether connections to this port are secured with TLS.
    pub mode: Option<TLSmode>,
    /// File with the server-side certificate.
    pub server_certificate: Option<String>,
    /// File with the server's private key.
    pub private_key: Option<String>,
    /// File with certificate authority certificates.
    pub ca_certificates: Option<String>,
    /// Name of the secret that holds the TLS certificates.
    pub credential_name: Option<String>,
    /// Alternate names that verify the subject identity.
    pub subject_alt_names: Option<Vec<String>>,
    /// Base64 SPKI hashes of authorized client certificates.
    pub verify_certificate_spki: Option<Vec<String>>,
    /// Hex hashes of authorized client certificates.
    pub verify_certificate_hash: Option<Vec<String>>,
    /// Minimum TLS protocol version.
    pub min_protocol_version: Option<TLSProtocol>,
    /// Maximum TLS protocol version.
    pub max_protocol_version: Option<TLSProtocol>,
    /// Cipher suites that are offered.
    pub cipher_suites: Option<Vec<String>>,
}

impl Codec for ServerTLSSettings {
    open spec fn wf(&self) -> bool {
        opt_wf(self.subject_alt_names) && opt_wf(self.verify_certificate_spki) && opt_wf(self.verify_certificate_hash) && opt_wf(self.cipher_suites)
    }

    open spec fn enc(&self) -> Json {
        let s = Seq::empty();
        let s = put(s, "httpsRedirect"@, opt_enc(self.https_redirect));
        let s = put(s, "mode"@, opt_enc(self.mode));
        let s = put(s, "serverCertificate"@, opt_enc(self.server_certificate));
        let s = put(s, "privateKey"@, opt_enc(self.private_key));
        let s = put(s, "caCertificates"@, opt_enc(self.ca_certificates));
        let s = put(s, "credentialName"@, opt_enc(self.credential_name));
        let s = put(s, "subjectAltNames"@, opt_enc(self.subject_alt_names));
        let s = put(s, "verifyCertificateSpki"@, opt_enc(self.verify_certificate_spki));
        let s = put(s, "verifyCertificateHash"@, opt_enc(self.verify_certificate_hash));
        let s = put(s, "minProtocolVersion"@, opt_enc(self.min_protocol_version));
        let s = put(s, "maxProtocolVersion"@, opt_enc(self.max_protocol_version));
        let s = put(s, "cipherSuites"@, opt_enc(self.cipher_suites));
        Json::Object(s)
    }

    open spec fn dec(w: Json, at: Seq<char>) -> Result<Json, Failure> {
        match w {
            Json::Object(es) => {
                let d_https_redirect = opt_dec::<bool>(es, at, "httpsRedirect"@);
                let d_mode = opt_dec::<TLSmode>(es, at, "mode"@);
                let d_server_certificate = opt_dec::<String>(es, at, "serverCertificate"@);
                let d_private_key = opt_dec::<String>(es, at, "privateKey"@);
                let d_ca_certificates = opt_dec::<String>(es, at, "caCertificates"@);
                let d_credential_name = opt_dec::<String>(es, at, "credentialName"@);
                let d_subject_alt_names = opt_dec::<Vec<String>>(es, at, "subjectAltNames"@);
                let d_verify_certificate_spki = opt_dec::<Vec<String>>(es, at, "verifyCertificateSpki"@);
                let d_verify_certificate_hash = opt_dec::<Vec<String>>(es, at, "verifyCertificateHash"@);
                let d_min_protocol_version = opt_dec::<TLSProtocol>(es, at, "minProtocolVersion"@);
                let d_max_protocol_version = opt_dec::<TLSProtocol>(es, at, "maxProtocolVersion"@);
                let d_cipher_suites = opt_dec::<Vec<String>>(es, at, "cipherSuites"@);
                if d_https_redirect is Err {
                    Err(d_https_redirect->Err_0)
                } else if d_mode is Err {
                    Err(d_mode->Err_0)
                } else if d_server_certificate is Err {
                    Err(d_server_certificate->Err_0)
                } else if d_private_key is Err {
                    Err(d_private_key->Err_0)
                } else if d_ca_certificates is Err {
                    Err(d_ca_certificates->Err_0)
                } else if d_credential_name is Err {
                    Err(d_credential_name->Err_0)
                } else if d_subject_alt_names is Err {
                    Err(d_subject_alt_names->Err_0)
                } else if d_verify_certificate_spki is Err {
                    Err(d_verify_certificate_spki->Err_0)
                } else if d_verify_certificate_hash is Err {
                    Err(d_verify_certificate_hash->Err_0)
                } else if d_min_protocol_version is Err {
                    Err(d_min_protocol_version->Err_0)
                } else if d_max_protocol_version is Err {
                    Err(d_max_protocol_version->Err_0)
                } else if d_cipher_suites is Err {
                    Err(d_cipher_suites->Err_0)
                } else {
                    let s = Seq::empty();
                    let s = put(s, "httpsRedirect"@, d_https_redirect->Ok_0);
                    let s = put(s, "mode"@, d_mode->Ok_0);
                    let s = put(s, "serverCertificate"@, d_server_certificate->Ok_0);
                    let s = put(s, "privateKey"@, d_private_key->Ok_0);
                    let s = put(s, "caCertificates"@, d_ca_certificates->Ok_0);
                    let s = put(s, "credentialName"@, d_credential_name->Ok_0);
                    let s = put(s, "subjectAltNames"@, d_subject_alt_names->Ok_0);
                    let s = put(s, "verifyCertificateSpki"@, d_verify_certificate_spki->Ok_0);
                    let s = put(s, "verifyCertificateHash"@, d_verify_certificate_hash->Ok_0);
                    let s = put(s, "minProtocolVersion"@, d_min_protocol_version->Ok_0);
                    let s = put(s, "maxProtocolVersion"@, d_max_protocol_version->Ok_0);
                    let s = put(s, "cipherSuites"@, d_cipher_suites->Ok_0);
                    Ok(Json::Object(s))
                }
            },
            _ => Err(mismatch(at, Kind::Object, w)),
        }
    }

    #[verifier::rlimit(60)]
    proof fn lemma_round_trip(&self, at: Seq<char>) {
        ServerTLSSettings::lemma_wire_keys();
        let s = Seq::empty();
        let s = put(s, "httpsRedirect"@, opt_enc(self.https_redirect));
        let s = put(s, "mode"@, opt_enc(self.mode));
        let s = put(s, "serverCertificate"@, opt_enc(self.server_certificate));
        let s = put(s, "privateKey"@, opt_enc(self.private_key));
        let s = put(s, "caCertificates"@, opt_enc(self.ca_certificates));
        let s = put(s, "credentialName"@, opt_enc(self.credential_name));
        let s = put(s, "subjectAltNames"@, opt_enc(self.subject_alt_names));
        let s = put(s, "verifyCertificateSpki"@, opt_enc(self.verify_certificate_spki));
        let s = put(s, "verifyCertificateHash"@, opt_enc(self.verify_certificate_hash));
        let s = put(s, "minProtocolVersion"@, opt_enc(self.min_protocol_version));
        let s = put(s, "maxProtocolVersion"@, opt_enc(self.max_protocol_version));
        let s = put(s, "cipherSuites"@, opt_enc(self.cipher_suites));
        lemma_opt_field::<bool>(s, at, "httpsRedirect"@, self.https_redirect);
        lemma_opt_field::<TLSmode>(s, at, "mode"@, self.mode);
        lemma_opt_field::<String>(s, at, "serverCertificate"@, self.server_certificate);
        lemma_opt_field::<String>(s, at, "privateKey"@, self.private_key);
        lemma_opt_field::<String>(s, at, "caCertificates"@, self.ca_certificates);
        lemma_opt_field::<String>(s, at, "credentialName"@, self.credential_name);
        lemma_opt_field::<Vec<String>>(s, at, "subjectAltNames"@, self.subject_alt_names);
        lemma_opt_field::<Vec<String>>(s, at, "verifyCertificateSpki"@, self.verify_certificate_spki);
        lemma_opt_field::<Vec<String>>(s, at, "verifyCertificateHash"@, self.verify_certificate_hash);
        lemma_opt_field::<TLSProtocol>(s, at, "minProtocolVersion"@, self.min_protocol_version);
        lemma_opt_field::<TLSProtocol>(s, at, "maxProtocolVersion"@, self.max_protocol_version);
        lemma_opt_field::<Vec<String>>(s, at, "cipherSuites"@, self.cipher_suites);
    }

    fn encode(&self) -> (r: Value) {
        let mut es = empty_entries();
        put_opt(&mut es, "httpsRedirect", &self.https_redirect);
        put_opt(&mut es, "mode", &self.mode);
        put_opt(&mut es, "serverCertificate", &self.server_certificate);
        put_opt(&mut es, "privateKey", &self.private_key);
        put_opt(&mut es, "caCertificates", &self.ca_certificates);
        put_opt(&mut es, "credentialName", &self.credential_name);
        put_opt(&mut es, "subjectAltNames", &self.subject_alt_names);
        put_opt(&mut es, "verifyCertificateSpki", &self.verify_certificate_spki);
        put_opt(&mut es, "verifyCertificateHash", &self.verify_certificate_hash);
        put_opt(&mut es, "minProtocolVersion", &self.min_protocol_version);
        put_opt(&mut es, "maxProtocolVersion", &self.max_protocol_version);
        put_opt(&mut es, "cipherSuites", &self.cipher_suites);
        Value::Object(es)
    }

    fn decode(w: &Value, at: &str) -> (r: Result<ServerTLSSettings, DecodeError>) {
        match w {
            Value::Object(es) => {
                let https_redirect = match opt_field::<bool>(es, at, "httpsRedirect") {
                    Ok(x) => x,
                    Err(e) => return Err(e),
                };
                let mode = match opt_field::<TLSmode>(es, at, "mode") {
                    Ok(x) => x,
                    Err(e) => return Err(e),
                };
                let server_certificate = match opt_field::<String>(es, at, "serverCertificate") {
                    Ok(x) => x,
                    Err(e) => return Err(e),
                };
                let private_key = match opt_field::<String>(es, at, "privateKey") {
                    Ok(x) => x,
                    Err(e) => return Err(e),
                };
                let ca_certificates = match opt_field::<String>(es, at, "caCertificates") {
                    Ok(x) => x,
                    Err(e) => return Err(e),
                };
                let credential_name = match opt_field::<String>(es, at, "credentialName") {
                    Ok(x) => x,
                    Err(e) => return Err(e),
                };
                let subject_alt_names = match opt_field::<Vec<String>>(es, at, "subjectAltNames") {
                    Ok(x) => x,
                    Err(e) => return Err(e),
                };
                let verify_certificate_spki = match opt_field::<Vec<String>>(es, at, "verifyCertificateSpki") {
                    Ok(x) => x,
                    Err(e) => return Err(e),
                };
                let verify_certificate_hash = match opt_field::<Vec<String>>(es, at, "verifyCertificateHash") {
                    Ok(x) => x,
                    Err(e) => return Err(e),
                };
                let min_protocol_version = match opt_field::<TLSProtocol>(es, at, "minProtocolVersion") {
                    Ok(x) => x,
                    Err(e) => return Err(e),
                };
                let max_protocol_version = match opt_field::<TLSProtocol>(es, at, "maxProtocolVersion") {
                    Ok(x) => x,
                    Err(e) => return Err(e),
                };
                let cipher_suites = match opt_field::<Vec<String>>(es, at, "cipherSuites") {
                    Ok(x) => x,
                    Err(e) => return Err(e),
                };
                Ok(ServerTLSSettings { https_redirect, mode, server_certificate, private_key, ca_certificates, credential_name, subject_alt_names, verify_certificate_spki, verify_certificate_hash, min_protocol_version, max_protocol_version, cipher_suites })
            },
            _ => Err(type_mismatch(at, Kind::Object, w)),
        }
    }
}

impl ServerTLSSettings {
    /// The wire keys of the type, as the proofs about its entries need them.
    proof fn lemma_wire_keys()
        ensures
            "httpsRedirect"@.len() == 13,
            "mode"@.len() == 4,
            "serverCertificate"@.len() == 17,
            "privateKey"@.len() == 10,
            "caCertificates"@.len() == 14,
            "caCertificates"@[1] == 'a',
            "credentialName"@.len() == 14,
            "credentialName"@[1] == 'r',
            "subjectAltNames"@.len() == 15,
            "verifyCertificateSpki"@.len() == 21,
            "verifyCertificateSpki"@[17] == 'S',
            "verifyCertificateHash"@.len() == 21,
            "verifyCertificateHash"@[17] == 'H',
            "minProtocolVersion"@.len() == 18,
            "minProtocolVersion"@[1] == 'i',
            "maxProtocolVersion"@.len() == 18,
            "maxProtocolVersion"@[1] == 'a',
            "cipherSuites"@.len() == 12,
    {
        reveal_strlit("httpsRedirect");
        reveal_strlit("mode");
        reveal_strlit("serverCertificate");
        reveal_strlit("privateKey");
        reveal_strlit("caCertificates");
        reveal_strlit("credentialName");
        reveal_strlit("subjectAltNames");
        reveal_strlit("verifyCertificateSpki");
        reveal_strlit("verifyCertificateHash");
        reveal_strlit("minProtocolVersion");
        reveal_strlit("maxProtocolVersion");
        reveal_strlit("cipherSuites");
    }

    /// A field that is absent leaves no key in the wire object.
    pub proof fn lemma_absent_fields_omitted(&self)
        ensures
            self.https_redirect is None ==> !has_key(self.enc(), "httpsRedirect"@),
            self.mode is None ==> !has_key(self.enc(), "mode"@),
            self.server_certificate is None ==> !has_key(self.enc(), "serverCertificate"@),
            self.private_key is None ==> !has_key(self.enc(), "privateKey"@),
            self.ca_certificates is None ==> !has_key(self.enc(), "caCertificates"@),
            self.credential_name is None ==> !has_key(self.enc(), "credentialName"@),
            self.subject_alt_names is None ==> !has_key(self.enc(), "subjectAltNames"@),
            self.verify_certificate_spki is None ==> !has_key(self.enc(), "verifyCertificateSpki"@),
            self.verify_certificate_hash is None ==> !has_key(self.enc(), "verifyCertificateHash"@),
            self.min_protocol_version is None ==> !has_key(self.enc(), "minProtocolVersion"@),
            self.max_protocol_version is None ==> !has_key(self.enc(), "maxProtocolVersion"@),
            self.cipher_suites is None ==> !has_key(self.enc(), "cipherSuites"@),
    {
        ServerTLSSettings::lemma_wire_keys();
    }
}

/// TLS modes enforced by the proxy.
#[allow(non_camel_case_types)]
#[derive(Clone, Copy, Debug, PartialEq, Eq)]
pub enum TLSmode {
    /// The SNI string presented by the client selects the destination.
    PASSTHROUGH,
    /// Standard TLS semantics.
    SIMPLE,
    /// Mutual TLS with client certificates.
    MUTUAL,
    /// Like passthrough, with the destination encoded in the SNI.
    AUTO_PASSTHROUGH,
    /// Mutual TLS with certificates that the mesh generates.
    ISTIO_MUTUAL,
}

impl TLSmode {
    /// The wire tag of the variant.
    pub open spec fn tag(&self) -> Seq<char> {
        match self {
            TLSmode::PASSTHROUGH => "PASSTHROUGH"@,
            TLSmode::SIMPLE => "SIMPLE"@,
            TLSmode::MUTUAL => "MUTUAL"@,
            TLSmode::AUTO_PASSTHROUGH => "AUTO_PASSTHROUGH"@,
            TLSmode::ISTIO_MUTUAL => "ISTIO_MUTUAL"@,
        }
    }
}

impl Codec for TLSmode {
    open spec fn wf(&self) -> bool {
        true
    }

    open spec fn enc(&self) -> Json {
        Json::Str(self.tag())
    }

    open spec fn dec(w: Json, at: Seq<char>) -> Result<Json, Failure> {
        match w {
            Json::Str(s) => if s == "PASSTHROUGH"@ || s == "SIMPLE"@ || s == "MUTUAL"@ || s == "AUTO_PASSTHROUGH"@ || s == "ISTIO_MUTUAL"@ {
                Ok(w)
            } else {
                Err(Failure::UnknownVariant { enum_name: "TLSmode"@, tag: s })
            },
            _ => Err(mismatch(at, Kind::String, w)),
        }
    }

    proof fn lemma_round_trip(&self, at: Seq<char>) {
    }

    fn encode(&self) -> (r: Value) {
        let tag = match self {
            TLSmode::PASSTHROUGH => "PASSTHROUGH",
            TLSmode::SIMPLE => "SIMPLE",
            TLSmode::MUTUAL => "MUTUAL",
            TLSmode::AUTO_PASSTHROUGH => "AUTO_PASSTHROUGH",
            TLSmode::ISTIO_MUTUAL => "ISTIO_MUTUAL",
        };
        Value::Str(String::from_str(tag))
    }

    fn decode(w: &Value, at: &str) -> (r: Result<TLSmode, DecodeError>) {
        match w {
            Value::Str(s) => {
                if is_tag(s, "PASSTHROUGH") {
                    Ok(TLSmode::PASSTHROUGH)
                } else if is_tag(s, "SIMPLE") {
                    Ok(TLSmode::SIMPLE)
                } else if is_tag(s, "MUTUAL") {
                    Ok(TLSmode::MUTUAL)
                } else if is_tag(s, "AUTO_PASSTHROUGH") {
                    Ok(TLSmode::AUTO_PASSTHROUGH)
                } else if is_tag(s, "ISTIO_MUTUAL") {
                    Ok(TLSmode::ISTIO_MUTUAL)
                } else {
                    Err(DecodeError::UnknownVariant { enum_name: String::from_str("TLSmode"), tag: s.clone() })
                }
            },
            _ => Err(type_mismatch(at, Kind::String, w)),
        }
    }
}

/// TLS protocol versions.
#[allow(non_camel_case_types)]
#[derive(Clone, Copy, Debug, PartialEq, Eq)]
pub enum TLSProtocol {
    /// Automatically choose the optimal version.
    TLS_AUTO,
    /// TLS version 1.0.
    TLSV1_0,
    /// TLS version 1.1.
    TLSV1_1,
    /// TLS version 1.2.
    TLSV1_2,
    /// TLS version 1.3.
    TLSV1_3,
}

impl TLSProtocol {
    /// The wire tag of the variant.
    pub open spec fn tag(&self) -> Seq<char> {
        match self {
            TLSProtocol::TLS_AUTO => "TLS_AUTO"@,
            TLSProtocol::TLSV1_0 => "TLSV1_0"@,
            TLSProtocol::TLSV1_1 => "TLSV1_1"@,
            TLSProtocol::TLSV1_2 => "TLSV1_2"@,
            TLSProtocol::TLSV1_3 => "TLSV1_3"@,
        }
    }
}

impl Codec for TLSProtocol {
    open spec fn wf(&self) -> bool {
        true
    }

    open spec fn enc(&self) -> Json {
        Json::Str(self.tag())
    }

    open spec fn dec(w: Json, at: Seq<char>) -> Result<Json, Failure> {
        match w {
            Json::Str(s) => if s == "TLS_AUTO"@ || s == "TLSV1_0"@ || s == "TLSV1_1"@ || s == "TLSV1_2"@ || s == "TLSV1_3"@ {
                Ok(w)
            } else {
                Err(Failure::UnknownVariant { enum_name: "TLSProtocol"@, tag: s })
            },
            _ => Err(mismatch(at, Kind::String, w)),
        }
    }

    proof fn lemma_round_trip(&self, at: Seq<char>) {
    }

    fn encode(&self) -> (r: Value) {
        let tag = match self {
            TLSProtocol::TLS_AUTO => "TLS_AUTO",
            TLSProtocol::TLSV1_0 => "TLSV1_0",
            TLSProtocol::TLSV1_1 => "TLSV1_1",
            TLSProtocol::TLSV1_2 => "TLSV1_2",
            TLSProtocol::TLSV1_3 => "TLSV1_3",
        };
        Value::Str(String::from_str(tag))
    }

    fn decode(w: &Value, at: &str) -> (r: Result<TLSProtocol, DecodeError>) {
        match w {
            Value::Str(s) => {
                if is_tag(s, "TLS_AUTO") {
                    Ok(TLSProtocol::TLS_AUTO)
                } else if is_tag(s, "TLSV1_0") {
                    Ok(TLSProtocol::TLSV1_0)
                } else if is_tag(s, "TLSV1_1") {
                    Ok(TLSProtocol::TLSV1_1)
                } else if is_tag(s, "TLSV1_2") {
                    Ok(TLSProtocol::TLSV1_2)
                } else if is_tag(s, "TLSV1_3") {
                    Ok(TLSProtocol::TLSV1_3)
                } else {
                    Err(DecodeError::UnknownVariant { enum_name: String::from_str("TLSProtocol"), tag: s.clone() })
                }
            },
            _ => Err(type_mismatch(at, Kind::String, w)),
        }
    }
}

} // verus!
