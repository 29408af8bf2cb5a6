//! The ISO 18013-5 reader session: what the terminal asks the holder for,
//! the engagement URI that opens the session, and the verified response.

use vstd::prelude::*;
use isomdl::definitions::device_engagement::DeviceEngagement;
use isomdl::definitions::device_request::Namespaces;
use isomdl::definitions::helpers::{NonEmptyMap, Tag24};
use isomdl::definitions::x509::trust_anchor::{PemTrustAnchor, TrustAnchorRegistry, TrustPurpose};
use isomdl::presentation::authentication::{AuthenticationStatus, ResponseAuthenticationOutcome};
use isomdl::presentation::reader::SessionManager;
use serde_json::Value;
use crate::transport::Engagement;
use crate::transport::qr::{engagement_uri_of, is_mdoc_uri, lemma_engagement_uri_is_mdoc};
use crate::text::chars_of;

verus! {

/// The ISO 18013-5 mDL namespace.
pub const MDL_NAMESPACE: &'static str = "org.iso.18013.5.1";

/// Why a reader session could not be started, with isomdl's report of
/// the cause.
#[derive(Debug, Clone, PartialEq, Eq)]
pub enum ReaderError {
    /// The engagement bytes are not a CBOR `DeviceEngagement`.
    InvalidEngagement(String),
    /// isomdl could not establish the session (key agreement or request
    /// encoding failed).
    Session(String),
    /// A PEM file is not an X.509 certificate.
    TrustAnchors(String),
}

/// The text that reports a reader session error: what the reader was
/// doing, then the cause.
pub open spec fn reader_error_message(e: ReaderError) -> Seq<char> {
    match e {
        ReaderError::InvalidEngagement(c) => "parsing DeviceEngagement: "@ + c@,
        ReaderError::Session(c) => "establishing reader session: "@ + c@,
        ReaderError::TrustAnchors(c) => "building trust anchor registry: "@ + c@,
    }
}

impl ReaderError {
    /// The text that reports this error.
    pub fn message(&self) -> (r: String)
        ensures
            r@ == reader_error_message(*self),
    {
        let (context, cause) = match self {
            ReaderError::InvalidEngagement(c) => ("parsing DeviceEngagement: ", c),
            ReaderError::Session(c) => ("establishing reader session: ", c),
            ReaderError::TrustAnchors(c) => ("building trust anchor registry: ", c),
        };
        let mut text = String::from_str(context);
        text.append(cause.as_str());
        text
    }
}

#[verifier::external_type_specification]
#[verifier::external_body]
#[verifier::reject_recursive_types(K)]
#[verifier::reject_recursive_types(V)]
pub struct ExNonEmptyMap<K: Ord + Eq + Clone, V: Clone>(NonEmptyMap<K, V>);

#[verifier::external_type_specification]
#[verifier::external_body]
pub struct ExTrustAnchorRegistry(TrustAnchorRegistry);

#[verifier::external_type_specification]
#[verifier::external_body]
pub struct ExSessionManager(SessionManager);

#[verifier::external_type_specification]
#[verifier::external_body]
pub struct ExResponseAuthenticationOutcome(ResponseAuthenticationOutcome);


/// The data elements requested for door access from the mDL namespace, each
/// with its "intent to retain" flag.
pub open spec fn requested_data_elements() -> Map<Seq<char>, bool> {
    map![
        "age_over_21"@ => false,
        "given_name"@ => false,
        "family_name"@ => false,
        "portrait"@ => false,
    ]
}

/// What an isomdl data element map (`NonEmptyMap<String, bool>`, a
/// `BTreeMap` inside) holds: the intent to retain of each element name.
pub uninterp spec fn data_elements_of(m: NonEmptyMap<String, bool>) -> Map<Seq<char>, bool>;

/// What an isomdl `Namespaces` map holds: the data elements of each
/// namespace.
pub uninterp spec fn namespaces_of(m: Namespaces) -> Map<Seq<char>, Map<Seq<char>, bool>>;

/// `NonEmptyMap::<String, bool>::new` of isomdl: a map holding the one entry.
#[verifier::external_body]
fn data_elements_new(name: String, retain: bool) -> (m: NonEmptyMap<String, bool>)
    ensures
        data_elements_of(m) == map![name@ => retain],
{
    NonEmptyMap::new(name, retain)
}

/// `NonEmptyMap::<String, bool>::insert` of isomdl: `BTreeMap::insert` on
/// the inner map, which adds the entry or replaces the flag of that name.
#[verifier::external_body]
fn data_elements_insert(m: &mut NonEmptyMap<String, bool>, name: String, retain: bool)
    ensures
        data_elements_of(*final(m)) == data_elements_of(*old(m)).insert(name@, retain),
{
    m.insert(name, retain);
}

/// `NonEmptyMap::<String, DataElements>::new` of isomdl: the namespaces
/// map holding the one namespace.
#[verifier::external_body]
fn namespaces_new(namespace: String, elements: NonEmptyMap<String, bool>) -> (m: Namespaces)
    ensures
        namespaces_of(m) == map![namespace@ => data_elements_of(elements)],
{
    NonEmptyMap::new(namespace, elements)
}

/// Elements requested for door access from the ISO 18013-5 mDL namespace;
/// `true` would be "intent to retain".
pub fn requested_elements() -> (r: Namespaces)
    ensures
        namespaces_of(r) == map![MDL_NAMESPACE@ => requested_data_elements()],
{
    let mut elements = data_elements_new(String::from_str("age_over_21"), false);
    data_elements_insert(&mut elements, String::from_str("given_name"), false);
    data_elements_insert(&mut elements, String::from_str("family_name"), false);
    data_elements_insert(&mut elements, String::from_str("portrait"), false);
    assert(data_elements_of(elements) =~= requested_data_elements());
    namespaces_new(String::from_str(MDL_NAMESPACE), elements)
}

/// Whether `bytes` decode as isomdl's CBOR `DeviceEngagement`.
pub uninterp spec fn is_device_engagement(bytes: Seq<u8>) -> bool;

/// No name occurs twice among the entries.
pub open spec fn keys_distinct<V>(v: Seq<(String, V)>) -> bool {
    forall|i: int, j: int| 0 <= i < j < v.len() ==> v[i].0@ != v[j].0@
}

/// The text of the error with which isomdl's `Tag24::from_bytes` refuses
/// bytes that are not a `DeviceEngagement`.
pub uninterp spec fn engagement_error_text(bytes: Seq<u8>) -> Seq<char>;

/// `Tag24::<DeviceEngagement>::from_bytes` of isomdl, then
/// `to_qr_code_uri`: the bytes decode as a device engagement or not (a
/// function of the bytes alone, named), and the URI, which always comes
/// when they do, is `mdoc:` with the very bytes given in URL-safe base64
/// (`from_bytes` keeps them as `inner_bytes`, which `to_qr_code_uri`
/// encodes). When they do not, the error is isomdl's text for it, a
/// function of the bytes, named.
#[verifier::external_body]
fn qr_code_uri_of_bytes(bytes: Vec<u8>) -> (r: Result<String, String>)
    ensures
        r is Ok == is_device_engagement(bytes@),
        r matches Ok(uri) ==> uri@ == engagement_uri_of(bytes@),
        r matches Err(e) ==> e@ == engagement_error_text(bytes@),
{
    match Tag24::<DeviceEngagement>::from_bytes(bytes) {
        Ok(tagged) => tagged.to_qr_code_uri().map_err(|e| e.to_string()),
        Err(e) => Err(e.to_string()),
    }
}

/// The QR code URI form of the engagement received over NFC, which is what
/// isomdl's `SessionManager::establish_session` expects: `mdoc:` and the
/// engagement's bytes in URL-safe base64.
pub fn session_qr_uri(engagement: &Engagement) -> (r: Result<String, ReaderError>)
    ensures
        r is Ok == is_device_engagement(engagement.bytes@),
        r matches Ok(uri) ==> uri@ == engagement_uri_of(engagement.bytes@) && is_mdoc_uri(uri@),
        r matches Err(e) ==> e matches ReaderError::InvalidEngagement(c) && c@ == engagement_error_text(
            engagement.bytes@,
        ),
{
    proof {
        lemma_engagement_uri_is_mdoc(engagement.bytes@);
    }
    match qr_code_uri_of_bytes(engagement.bytes.clone()) {
        Ok(uri) => Ok(uri),
        Err(cause) => Err(ReaderError::InvalidEngagement(cause)),
    }
}

/// The value of a disclosed data element, as the logic reads it: text, a
/// boolean, or another JSON value (number, array, object, null).
#[derive(Debug, PartialEq, Eq)]
pub enum ElementValue {
    Text(String),
    Bool(bool),
    Other,
}

/// The outcome of an authenticity check.
#[derive(Debug, Clone, Copy, PartialEq, Eq, Structural)]
pub enum AuthStatus {
    Unchecked,
    Invalid,
    Valid,
}

/// The disclosed elements of the mDL namespace and the outcome of the
/// issuer (MSO) and device authentication.
pub struct VerifiedResponse {
    /// Disclosed elements from the mDL namespace, by element identifier.
    pub elements: Vec<(String, ElementValue)>,
    pub mso_valid: bool,
    pub device_auth_valid: bool,
}

/// The value of the first entry named `key`.
pub open spec fn lookup<V>(elements: Seq<(String, V)>, key: Seq<char>) -> Option<V>
    decreases elements.len(),
{
    if elements.len() == 0 {
        None
    } else if elements[0].0@ == key {
        Some(elements[0].1)
    } else {
        lookup(elements.subrange(1, elements.len() as int), key)
    }
}

impl VerifiedResponse {
    /// The response made of the disclosed elements and the two
    /// authentication outcomes: the MSO is valid when issuer authentication
    /// is, and so for device authentication.
    pub fn new(elements: Vec<(String, ElementValue)>, issuer: AuthStatus, device: AuthStatus) -> (r: VerifiedResponse)
        ensures
            r.elements@ == elements@,
            r.mso_valid == (issuer == AuthStatus::Valid),
            r.device_auth_valid == (device == AuthStatus::Valid),
    {
        VerifiedResponse {
            elements,
            mso_valid: issuer == AuthStatus::Valid,
            device_auth_valid: device == AuthStatus::Valid,
        }
    }

    /// The value of the disclosed element named `key`.
    pub fn get(&self, key: &str) -> (r: Option<&ElementValue>)
        ensures
            match r {
                Some(v) => lookup(self.elements@, key@) == Some(*v),
                None => lookup(self.elements@, key@) is None,
            },
    {
        let wanted = String::from_str(key);
        let n = self.elements.len();
        let mut i: usize = 0;
        assert(self.elements@.subrange(0, n as int) =~= self.elements@);
        while i < n
            invariant
                i <= n,
                n == self.elements@.len(),
                wanted@ == key@,
                lookup(self.elements@, key@) == lookup(
                    self.elements@.subrange(i as int, n as int),
                    key@,
                ),
            decreases n - i,
        {
            let ghost rest = self.elements@.subrange(i as int, n as int);
            assert(rest.subrange(1, rest.len() as int) =~= self.elements@.subrange(
                i + 1,
                n as int,
            ));
            if self.elements[i].0 == wanted {
                return Some(&self.elements[i].1);
            }
            i = i + 1;
        }
        None
    }
}

/// Whether a file name has the extension `pem` in the sense of
/// `std::path::Path::extension`: the part after the last `.`, where a name
/// that starts with its only `.` has no extension. As "pem" holds no `.`,
/// that is: the name ends in ".pem" and something comes before it.
pub open spec fn is_pem_file_name(name: Seq<char>) -> bool {
    name.len() > 4 && name.subrange(name.len() - 4, name.len() as int) == seq!['.', 'p', 'e', 'm']
}

/// Whether a file of the trust anchor directory is read as an IACA root
/// certificate: each `*.pem` file is.
pub fn has_pem_extension(file_name: &str) -> (r: bool)
    ensures
        r == is_pem_file_name(file_name@),
{
    let c = chars_of(file_name);
    let n = c.len();
    if n <= 4 {
        return false;
    }
    let r = c[n - 4] == '.' && c[n - 3] == 'p' && c[n - 2] == 'e' && c[n - 1] == 'm';
    let ghost tail = file_name@.subrange(n - 4, n as int);
    if r {
        assert(tail =~= seq!['.', 'p', 'e', 'm']);
    } else {
        assert(tail != seq!['.', 'p', 'e', 'm']) by {
            if tail == seq!['.', 'p', 'e', 'm'] {
                assert(tail[0] == '.' && tail[1] == 'p' && tail[2] == 'e' && tail[3] == 'm');
            }
        }
    }
    r
}

/// What a trust anchor is trusted for (isomdl's `TrustPurpose`).
#[derive(Debug, Clone, Copy, PartialEq, Eq, Structural)]
pub enum AnchorPurpose {
    /// Issuer Authority Certificate Authority: signs the issuers' MSOs.
    Iaca,
    /// Reader Certificate Authority.
    ReaderCa,
}

/// The purpose that the terminal trusts its PEM files for: each one is an
/// IACA root.
pub open spec fn anchor_purpose() -> AnchorPurpose {
    AnchorPurpose::Iaca
}

/// The certificate that x509-cert reads from a PEM text
/// (`Certificate::from_pem`), as the DER bytes it writes back for it
/// (`to_der`, none written counting as empty), or `None` when the text is
/// not a PEM certificate.
pub uninterp spec fn pem_certificate(pem: Seq<char>) -> Option<Seq<u8>>;

/// What a trust anchor registry holds: its anchors in order, each as its
/// certificate's DER bytes (as `to_der` writes them, none written counting
/// as empty) and its purpose.
pub uninterp spec fn registry_anchors(r: TrustAnchorRegistry) -> Seq<(Seq<u8>, AnchorPurpose)>;

/// The views of a list of strings.
pub open spec fn string_views(v: Seq<String>) -> Seq<Seq<char>> {
    v.map_values(|p: String| p@)
}

/// Whether every PEM text is a certificate.
pub open spec fn all_certificates(pems: Seq<Seq<char>>) -> bool {
    forall|i: int| 0 <= i < pems.len() ==> (#[trigger] pem_certificate(pems[i])) is Some
}

/// The anchors made of the certificates of `pems`, in order, each trusted
/// for `purpose`.
pub open spec fn anchors_of(pems: Seq<Seq<char>>, purpose: AnchorPurpose) -> Seq<(Seq<u8>, AnchorPurpose)> {
    Seq::new(pems.len(), |i: int| (pem_certificate(pems[i])->0, purpose))
}

/// The text of the error with which isomdl's
/// `TrustAnchorRegistry::from_pem_certificates` refuses these PEM texts for
/// `purpose` (the anchor's index and x509-cert's report, as anyhow writes
/// the chain).
pub uninterp spec fn pem_error_text(pems: Seq<Seq<char>>, purpose: AnchorPurpose) -> Seq<char>;

/// `TrustAnchorRegistry::from_pem_certificates` of isomdl, each PEM text
/// taken as a trust anchor for `purpose` (variant for variant). Its source
/// parses each text with `Certificate::from_pem`, in order, and fails on the
/// first text that does not parse; otherwise the registry holds one anchor
/// per text, with that certificate and the given purpose. So an empty list
/// gives an empty registry.
#[verifier::external_body]
fn registry_from_pems(pems: Vec<String>, purpose: AnchorPurpose) -> (r: Result<TrustAnchorRegistry, String>)
    ensures
        r is Ok == (forall|i: int|
            0 <= i < pems@.len() ==> (#[trigger] pem_certificate(pems@[i]@)) is Some),
        r matches Ok(reg) ==> registry_anchors(reg) == Seq::new(
            pems@.len(),
            |i: int| (pem_certificate(pems@[i]@)->0, purpose),
        ),
        r matches Err(e) ==> e@ == pem_error_text(string_views(pems@), purpose),
{
    let purpose = match purpose {
        AnchorPurpose::Iaca => TrustPurpose::Iaca,
        AnchorPurpose::ReaderCa => TrustPurpose::ReaderCa,
    };
    let anchors = pems.into_iter().map(|certificate_pem| PemTrustAnchor { certificate_pem, purpose }).collect();
    TrustAnchorRegistry::from_pem_certificates(anchors).map_err(|e| format!("{e:#}"))
}

/// Builds the trust anchor registry for MSO validation from the PEM texts
/// of the issuer (IACA) root certificates: one IACA anchor per text, in
/// order, or `TrustAnchors` with isomdl's report when a text is not a
/// certificate. No text at
/// all gives the empty registry, against which MSO validation fails.
pub fn build_trust_registry(pems: Vec<String>) -> (r: Result<TrustAnchorRegistry, ReaderError>)
    ensures
        r is Ok == all_certificates(string_views(pems@)),
        r matches Ok(reg) ==> registry_anchors(reg) == anchors_of(string_views(pems@), anchor_purpose()),
        pems@.len() == 0 ==> (r matches Ok(reg) && registry_anchors(reg).len() == 0),
        r matches Err(e) ==> e matches ReaderError::TrustAnchors(c) && c@ == pem_error_text(
            string_views(pems@),
            anchor_purpose(),
        ),
{
    let ghost texts = string_views(pems@);
    let r = registry_from_pems(pems, AnchorPurpose::Iaca);
    assert(forall|i: int| 0 <= i < pems@.len() ==> #[trigger] texts[i] == pems@[i]@);
    proof {
        if all_certificates(texts) {
            assert forall|i: int| 0 <= i < pems@.len() implies (#[trigger] pem_certificate(pems@[i]@)) is Some by {
                assert(pem_certificate(texts[i]) is Some);
            }
        }
        if forall|i: int| 0 <= i < pems@.len() ==> (#[trigger] pem_certificate(pems@[i]@)) is Some {
            assert forall|i: int| 0 <= i < texts.len() implies (#[trigger] pem_certificate(texts[i])) is Some by {
                assert(texts[i] == pems@[i]@);
            }
        }
    }
    match r {
        Ok(registry) => {
            assert(registry_anchors(registry) =~= anchors_of(texts, AnchorPurpose::Iaca));
            Ok(registry)
        },
        Err(cause) => Err(ReaderError::TrustAnchors(cause)),
    }
}

/// `SessionManager::establish_session` of isomdl: derives the session keys
/// from a fresh ephemeral key and the engagement, and encrypts the request
/// for `namespaces`; the BLE ident it also returns is dropped. The key is
/// random, so nothing is claimed of the session, the request bytes, or
/// whether the call succeeds; a failure comes with isomdl's report, as
/// anyhow writes the chain, of which nothing is claimed either.
#[verifier::external_body]
fn establish_session(qr_code: String, namespaces: Namespaces, trust_anchors: TrustAnchorRegistry) -> Result<(SessionManager, Vec<u8>), String> {
    match SessionManager::establish_session(qr_code, namespaces, trust_anchors) {
        Ok((session, request, _ble_ident)) => Ok((session, request)),
        Err(e) => Err(format!("{e:#}")),
    }
}

/// Starts the reader session for an engagement received over NFC: the
/// session state and the encrypted request for `requested_elements()`,
/// to be sent to the phone.
pub fn start_session(engagement: &Engagement, trust_anchors: TrustAnchorRegistry) -> (r: Result<
    (SessionManager, Vec<u8>),
    ReaderError,
>)
    ensures
        !is_device_engagement(engagement.bytes@) ==> (r matches Err(e) && e matches ReaderError::InvalidEngagement(c)
            && c@ == engagement_error_text(engagement.bytes@)),
        is_device_engagement(engagement.bytes@) ==> (r is Ok || r matches Err(ReaderError::Session(_))),
{
    let qr_code = match session_qr_uri(engagement) {
        Ok(uri) => uri,
        Err(e) => return Err(e),
    };
    match establish_session(qr_code, requested_elements(), trust_anchors) {
        Ok(started) => Ok(started),
        Err(cause) => Err(ReaderError::Session(cause)),
    }
}

/// `SessionManager::handle_response` of isomdl: decrypts the response with
/// the session keys and validates the issuer and device signatures against
/// the trust anchors; failures are recorded in the outcome. The outcome
/// depends on the session's keys, so nothing is claimed of it.
#[verifier::external_body]
fn handle_response(session: &mut SessionManager, response: &[u8]) -> ResponseAuthenticationOutcome {
    session.handle_response(response)
}

/// A data element's JSON value as the reader sees it: its variant, with
/// the text of a string and the value of a boolean.
pub enum JsonElementModel {
    Null,
    Bool(bool),
    Number,
    String(Seq<char>),
    Array,
    Object,
}

/// A namespace's JSON value as the reader sees it: an object's entries, or
/// any other value as a data element's value is seen.
pub enum JsonNamespaceModel {
    Object(Seq<(Seq<char>, JsonElementModel)>),
    NotObject(JsonElementModel),
}

/// What isomdl's response outcome holds: the namespaces of its `response`
/// map, in the map's (key) order, each with its JSON value, and an object's
/// entries in the object's order.
pub uninterp spec fn outcome_content(o: ResponseAuthenticationOutcome) -> Seq<(Seq<char>, JsonNamespaceModel)>;

/// The `issuer_authentication` field of isomdl's response outcome.
pub uninterp spec fn outcome_issuer(o: ResponseAuthenticationOutcome) -> AuthStatus;

/// The `device_authentication` field of isomdl's response outcome.
pub uninterp spec fn outcome_device(o: ResponseAuthenticationOutcome) -> AuthStatus;

/// The `issuer_authentication` field of isomdl's outcome, variant for
/// variant.
#[verifier::external_body]
fn issuer_authentication(outcome: &ResponseAuthenticationOutcome) -> (r: AuthStatus)
    ensures
        r == outcome_issuer(*outcome),
{
    match outcome.issuer_authentication {
        AuthenticationStatus::Unchecked => AuthStatus::Unchecked,
        AuthenticationStatus::Invalid => AuthStatus::Invalid,
        AuthenticationStatus::Valid => AuthStatus::Valid,
    }
}

/// The `device_authentication` field of isomdl's outcome, variant for
/// variant.
#[verifier::external_body]
fn device_authentication(outcome: &ResponseAuthenticationOutcome) -> (r: AuthStatus)
    ensures
        r == outcome_device(*outcome),
{
    match outcome.device_authentication {
        AuthenticationStatus::Unchecked => AuthStatus::Unchecked,
        AuthenticationStatus::Invalid => AuthStatus::Invalid,
        AuthenticationStatus::Valid => AuthStatus::Valid,
    }
}

/// A data element's JSON value: its variant, with the text of a string and
/// the value of a boolean.
pub enum JsonElement {
    Null,
    Bool(bool),
    Number,
    String(String),
    Array,
    Object,
}

/// A namespace's JSON value: an object's entries, or any other value as a
/// data element's value is taken.
pub enum JsonNamespace {
    Object(Vec<(String, JsonElement)>),
    NotObject(JsonElement),
}

/// The view of a data element's JSON value.
pub open spec fn element_json_view(j: JsonElement) -> JsonElementModel {
    match j {
        JsonElement::Null => JsonElementModel::Null,
        JsonElement::Bool(b) => JsonElementModel::Bool(b),
        JsonElement::Number => JsonElementModel::Number,
        JsonElement::String(s) => JsonElementModel::String(s@),
        JsonElement::Array => JsonElementModel::Array,
        JsonElement::Object => JsonElementModel::Object,
    }
}

/// The view of an object's entries.
pub open spec fn entries_json_view(es: Seq<(String, JsonElement)>) -> Seq<(Seq<char>, JsonElementModel)> {
    es.map_values(|p: (String, JsonElement)| (p.0@, element_json_view(p.1)))
}

/// The view of a namespace's JSON value.
pub open spec fn namespace_json_view(j: JsonNamespace) -> JsonNamespaceModel {
    match j {
        JsonNamespace::Object(es) => JsonNamespaceModel::Object(entries_json_view(es@)),
        JsonNamespace::NotObject(e) => JsonNamespaceModel::NotObject(element_json_view(e)),
    }
}

/// The view of a response's namespaces.
pub open spec fn response_json_view(r: Seq<(String, JsonNamespace)>) -> Seq<(Seq<char>, JsonNamespaceModel)> {
    r.map_values(|p: (String, JsonNamespace)| (p.0@, namespace_json_view(p.1)))
}

/// A namespace value that is an object holds no name twice.
pub open spec fn json_object_keyed(j: JsonNamespace) -> bool {
    match j {
        JsonNamespace::Object(es) => keys_distinct(es@),
        _ => true,
    }
}

/// The `response` field of isomdl's outcome (a `BTreeMap` from namespace
/// to `serde_json::Value`), in key order: an object as its entries (a
/// `serde_json::Map`, in its order), each value by its variant, one arm
/// each, keeping the text of a string and the value of a boolean; any other
/// namespace value by its variant in the same way. As both maps are keyed,
/// no name occurs twice in either.
#[verifier::external_body]
fn outcome_response(outcome: &ResponseAuthenticationOutcome) -> (r: Vec<(String, JsonNamespace)>)
    ensures
        response_json_view(r@) == outcome_content(*outcome),
        keys_distinct(r@),
        forall|i: int| 0 <= i < r@.len() ==> json_object_keyed(#[trigger] r@[i].1),
{
    let element = |v: &Value| match v {
        Value::Null => JsonElement::Null, Value::Bool(b) => JsonElement::Bool(*b), Value::Number(_) => JsonElement::Number,
        Value::String(s) => JsonElement::String(s.clone()), Value::Array(_) => JsonElement::Array, Value::Object(_) => JsonElement::Object,
    };
    outcome.response.iter().map(|(ns, v)| (ns.clone(), match v {
        Value::Object(m) => JsonNamespace::Object(m.iter().map(|(k, e)| (k.clone(), element(e))).collect()),
        _ => JsonNamespace::NotObject(element(v)),
    })).collect()
}

/// How a data element is read: text, a boolean, or any other JSON value.
pub enum ElementModel {
    Text(Seq<char>),
    Bool(bool),
    Other,
}

/// The view of a data element's value.
pub open spec fn element_view(e: ElementValue) -> ElementModel {
    match e {
        ElementValue::Text(s) => ElementModel::Text(s@),
        ElementValue::Bool(b) => ElementModel::Bool(b),
        ElementValue::Other => ElementModel::Other,
    }
}

/// How a JSON value is read as the value of a data element: a string is
/// text, a boolean a boolean, anything else `Other`.
pub open spec fn element_of(j: JsonElementModel) -> ElementModel {
    match j {
        JsonElementModel::String(s) => ElementModel::Text(s),
        JsonElementModel::Bool(b) => ElementModel::Bool(b),
        _ => ElementModel::Other,
    }
}

/// Reads a JSON value as the value of a data element.
pub fn element_value(j: JsonElement) -> (r: ElementValue)
    ensures
        element_view(r) == element_of(element_json_view(j)),
{
    match j {
        JsonElement::String(s) => ElementValue::Text(s),
        JsonElement::Bool(b) => ElementValue::Bool(b),
        _ => ElementValue::Other,
    }
}

/// The views of data elements.
pub open spec fn elements_view(es: Seq<(String, ElementValue)>) -> Seq<(Seq<char>, ElementModel)> {
    es.map_values(|p: (String, ElementValue)| (p.0@, element_view(p.1)))
}

/// An object's entries read as data elements, in order.
pub open spec fn read_elements(es: Seq<(Seq<char>, JsonElementModel)>) -> Seq<(Seq<char>, ElementModel)> {
    es.map_values(|p: (Seq<char>, JsonElementModel)| (p.0, element_of(p.1)))
}

/// What a namespace of the response holds: an object of data elements, or
/// some other JSON value.
pub enum NamespaceValue {
    Object(Vec<(String, ElementValue)>),
    Other,
}

/// How a namespace is read: an object of data elements, or anything else.
pub enum NamespaceModel {
    Object(Seq<(Seq<char>, ElementModel)>),
    Other,
}

/// The view of a namespace value.
pub open spec fn namespace_view(v: NamespaceValue) -> NamespaceModel {
    match v {
        NamespaceValue::Object(es) => NamespaceModel::Object(elements_view(es@)),
        NamespaceValue::Other => NamespaceModel::Other,
    }
}

/// How a namespace's JSON value is read: an object's entries as data
/// elements, any other value as `Other`.
pub open spec fn namespace_of(j: JsonNamespaceModel) -> NamespaceModel {
    match j {
        JsonNamespaceModel::Object(es) => NamespaceModel::Object(read_elements(es)),
        _ => NamespaceModel::Other,
    }
}

/// The views of a response's namespaces.
pub open spec fn response_view(r: Seq<(String, NamespaceValue)>) -> Seq<(Seq<char>, NamespaceModel)> {
    r.map_values(|p: (String, NamespaceValue)| (p.0@, namespace_view(p.1)))
}

/// A response's JSON content read namespace by namespace.
pub open spec fn read_content(c: Seq<(Seq<char>, JsonNamespaceModel)>) -> Seq<(Seq<char>, NamespaceModel)> {
    c.map_values(|p: (Seq<char>, JsonNamespaceModel)| (p.0, namespace_of(p.1)))
}

/// The outcome of a reader session, as the door logic reads it: the two
/// authentication outcomes and the disclosed namespaces.
pub struct SessionOutcome {
    pub issuer: AuthStatus,
    pub device: AuthStatus,
    pub response: Vec<(String, NamespaceValue)>,
}

/// The data elements of the mDL namespace of a response: the entries of the
/// first namespace named so when it is an object, and none when it is
/// absent or not an object.
pub open spec fn mdl_elements(response: Seq<(String, NamespaceValue)>) -> Seq<(String, ElementValue)> {
    match lookup(response, MDL_NAMESPACE@) {
        Some(NamespaceValue::Object(entries)) => entries@,
        _ => Seq::empty(),
    }
}

/// The value of the first entry named `key`, among viewed entries.
pub open spec fn lookup_model<V>(entries: Seq<(Seq<char>, V)>, key: Seq<char>) -> Option<V>
    decreases entries.len(),
{
    if entries.len() == 0 {
        None
    } else if entries[0].0 == key {
        Some(entries[0].1)
    } else {
        lookup_model(entries.subrange(1, entries.len() as int), key)
    }
}

/// The data elements of the mDL namespace of a read response.
pub open spec fn mdl_model(response: Seq<(Seq<char>, NamespaceModel)>) -> Seq<(Seq<char>, ElementModel)> {
    match lookup_model(response, MDL_NAMESPACE@) {
        Some(NamespaceModel::Object(entries)) => entries,
        _ => Seq::empty(),
    }
}

/// No namespace of the response holds an object in which a name occurs
/// twice.
pub open spec fn objects_keyed(response: Seq<(String, NamespaceValue)>) -> bool {
    forall|i: int| 0 <= i < response.len() ==> object_keyed(#[trigger] response[i].1)
}

/// A namespace value that is an object holds no name twice.
pub open spec fn object_keyed(v: NamespaceValue) -> bool {
    match v {
        NamespaceValue::Object(entries) => keys_distinct(entries@),
        NamespaceValue::Other => true,
    }
}

/// The response of a session outcome: the disclosed elements of the mDL
/// namespace, the MSO valid when issuer authentication is, and device
/// authentication valid when it is.
pub fn verified_response(outcome: SessionOutcome) -> (r: VerifiedResponse)
    ensures
        r.elements@ == mdl_elements(outcome.response@),
        r.mso_valid == (outcome.issuer == AuthStatus::Valid),
        r.device_auth_valid == (outcome.device == AuthStatus::Valid),
{
    let SessionOutcome { issuer, device, response } = outcome;
    let mut response = response;
    let wanted = String::from_str(MDL_NAMESPACE);
    let n = response.len();
    let mut i: usize = 0;
    assert(response@.subrange(0, n as int) =~= response@);
    while i < n
        invariant
            i <= n,
            n == response@.len(),
            wanted@ == MDL_NAMESPACE@,
            response@ == outcome.response@,
            issuer == outcome.issuer,
            device == outcome.device,
            lookup(response@, MDL_NAMESPACE@) == lookup(
                response@.subrange(i as int, n as int),
                MDL_NAMESPACE@,
            ),
        decreases n - i,
    {
        let ghost rest = response@.subrange(i as int, n as int);
        assert(rest.subrange(1, rest.len() as int) =~= response@.subrange(i + 1, n as int));
        if response[i].0 == wanted {
            let ghost all = response@;
            let (_, value) = response.remove(i);
            assert(value == all[i as int].1);
            assert(rest[0] == all[i as int]);
            let elements = match value {
                NamespaceValue::Object(entries) => entries,
                NamespaceValue::Other => Vec::new(),
            };
            return VerifiedResponse::new(elements, issuer, device);
        }
        i = i + 1;
    }
    VerifiedResponse::new(Vec::new(), issuer, device)
}

/// Reads the entries of a JSON object as data elements, in order, each
/// under its name.
pub fn object_elements(entries: Vec<(String, JsonElement)>) -> (r: Vec<(String, ElementValue)>)
    ensures
        elements_view(r@) == read_elements(entries_json_view(entries@)),
        keys_distinct(entries@) ==> keys_distinct(r@),
{
    let mut entries = entries;
    let ghost all = entries@;
    let mut elements: Vec<(String, ElementValue)> = Vec::new();
    while entries.len() > 0
        invariant
            elements@.len() + entries@.len() == all.len(),
            forall|i: int|
                0 <= i < elements@.len() ==> (#[trigger] elements@[i]).0@ == all[i].0@ && element_view(
                    elements@[i].1,
                ) == element_of(element_json_view(all[i].1)),
            forall|j: int|
                0 <= j < entries@.len() ==> #[trigger] entries@[j] == all[elements@.len() + j],
        decreases entries@.len(),
    {
        let ghost k = elements@.len();
        let ghost before = entries@;
        let (name, value) = entries.remove(0);
        assert(name == all[k as int].0 && value == all[k as int].1) by {
            assert(before[0] == all[k as int]);
        }
        let ghost prev = elements@;
        elements.push((name, element_value(value)));
        assert forall|i: int| 0 <= i < elements@.len() implies (#[trigger] elements@[i]).0@ == all[i].0@
            && element_view(elements@[i].1) == element_of(element_json_view(all[i].1)) by {
            if i < k {
                assert(elements@[i] == prev[i]);
            }
        }
        assert forall|j: int| 0 <= j < entries@.len() implies #[trigger] entries@[j] == all[elements@.len() + j] by {
            assert(entries@[j] == before[j + 1]);
        }
    }
    assert(elements_view(elements@) =~= read_elements(entries_json_view(all)));
    proof {
        if keys_distinct(all) {
            assert forall|i: int, j: int| 0 <= i < j < elements@.len() implies elements@[i].0@ != elements@[j].0@ by {
                assert(elements@[i].0@ == all[i].0@);
                assert(elements@[j].0@ == all[j].0@);
            }
        }
    }
    elements
}

/// Reads a namespace's JSON value: an object's entries as data elements,
/// any other value as `Other`.
pub fn namespace_value(j: JsonNamespace) -> (r: NamespaceValue)
    ensures
        namespace_view(r) == namespace_of(namespace_json_view(j)),
        json_object_keyed(j) ==> object_keyed(r),
{
    match j {
        JsonNamespace::Object(entries) => NamespaceValue::Object(object_elements(entries)),
        _ => NamespaceValue::Other,
    }
}

/// Reads isomdl's outcome as a `SessionOutcome`: the two authentication
/// outcomes, and each namespace of the response, in order, read by
/// `namespace_value`. No object holds a name twice.
pub fn session_outcome(outcome: &ResponseAuthenticationOutcome) -> (r: SessionOutcome)
    ensures
        r.issuer == outcome_issuer(*outcome),
        r.device == outcome_device(*outcome),
        response_view(r.response@) == read_content(outcome_content(*outcome)),
        objects_keyed(r.response@),
{
    let mut namespaces = outcome_response(outcome);
    let ghost all = namespaces@;
    let mut response: Vec<(String, NamespaceValue)> = Vec::new();
    while namespaces.len() > 0
        invariant
            forall|i: int| 0 <= i < all.len() ==> json_object_keyed(#[trigger] all[i].1),
            objects_keyed(response@),
            response@.len() + namespaces@.len() == all.len(),
            forall|i: int|
                0 <= i < response@.len() ==> (#[trigger] response@[i]).0@ == all[i].0@ && namespace_view(
                    response@[i].1,
                ) == namespace_of(namespace_json_view(all[i].1)),
            forall|j: int|
                0 <= j < namespaces@.len() ==> #[trigger] namespaces@[j] == all[response@.len() + j],
        decreases namespaces@.len(),
    {
        let ghost k = response@.len();
        let ghost before = namespaces@;
        let (name, value) = namespaces.remove(0);
        assert(name == all[k as int].0 && value == all[k as int].1) by {
            assert(before[0] == all[k as int]);
        }
        assert(json_object_keyed(all[k as int].1));
        let converted = namespace_value(value);
        let ghost prev = response@;
        response.push((name, converted));
        assert forall|i: int| 0 <= i < response@.len() implies object_keyed(#[trigger] response@[i].1) by {
            if i < k {
                assert(response@[i] == prev[i]);
            }
        }
        assert forall|i: int| 0 <= i < response@.len() implies (#[trigger] response@[i]).0@ == all[i].0@
            && namespace_view(response@[i].1) == namespace_of(namespace_json_view(all[i].1)) by {
            if i < k {
                assert(response@[i] == prev[i]);
            }
        }
        assert forall|j: int| 0 <= j < namespaces@.len() implies #[trigger] namespaces@[j] == all[response@.len() + j] by {
            assert(namespaces@[j] == before[j + 1]);
        }
    }
    assert(response_view(response@) =~= read_content(response_json_view(all)));
    SessionOutcome {
        issuer: issuer_authentication(outcome),
        device: device_authentication(outcome),
        response,
    }
}

/// In a response in which no object holds a name twice, the mDL elements
/// hold no name twice either.
pub proof fn lemma_mdl_elements_keyed(response: Seq<(String, NamespaceValue)>)
    requires
        objects_keyed(response),
    ensures
        keys_distinct(mdl_elements(response)),
    decreases response.len(),
{
    if response.len() > 0 && response[0].0@ != MDL_NAMESPACE@ {
        let rest = response.subrange(1, response.len() as int);
        assert forall|i: int| 0 <= i < rest.len() implies object_keyed(#[trigger] rest[i].1) by {
            assert(rest[i] == response[i + 1]);
        }
        lemma_mdl_elements_keyed(rest);
    } else if response.len() > 0 {
        assert(object_keyed(response[0].1));
    }
}

/// Looking up the mDL namespace commutes with viewing the response.
pub proof fn lemma_mdl_elements_view(response: Seq<(String, NamespaceValue)>)
    ensures
        elements_view(mdl_elements(response)) == mdl_model(response_view(response)),
    decreases response.len(),
{
    let v = response_view(response);
    if response.len() == 0 {
        assert(elements_view(Seq::<(String, ElementValue)>::empty()) =~= Seq::empty());
    } else {
        let rest = response.subrange(1, response.len() as int);
        assert(v.subrange(1, v.len() as int) =~= response_view(rest));
        assert(v[0] == (response[0].0@, namespace_view(response[0].1)));
        if response[0].0@ != MDL_NAMESPACE@ {
            lemma_mdl_elements_view(rest);
        } else {
            match response[0].1 {
                NamespaceValue::Object(es) => {},
                NamespaceValue::Other => {
                    assert(elements_view(Seq::<(String, ElementValue)>::empty()) =~= Seq::empty());
                },
            }
        }
    }
}

/// Whether a verified response reads isomdl's outcome `o`: the MSO valid
/// exactly when issuer authentication is, device authentication likewise,
/// and the elements those of the mDL namespace of its content.
pub open spec fn reads_outcome(r: VerifiedResponse, o: ResponseAuthenticationOutcome) -> bool {
    &&& r.mso_valid == (outcome_issuer(o) == AuthStatus::Valid)
    &&& r.device_auth_valid == (outcome_device(o) == AuthStatus::Valid)
    &&& elements_view(r.elements@) == mdl_model(read_content(outcome_content(o)))
}

/// Decrypts and validates the phone's response with isomdl and reads the
/// outcome (`session_outcome`, then `verified_response`): the disclosed
/// elements of the mDL namespace, in the order isomdl lists them, and the
/// outcome of issuer and device authentication. The outcome depends on the
/// session's keys, so it is not named; the result reads the outcome that
/// isomdl gave, and no name occurs twice among its elements, so `get` finds
/// the one element of a name.
pub fn finish_session(session: &mut SessionManager, response: &[u8]) -> (r: VerifiedResponse)
    ensures
        keys_distinct(r.elements@),
        exists|o: ResponseAuthenticationOutcome| #[trigger] reads_outcome(r, o),
{
    let outcome = handle_response(session, response);
    let read = session_outcome(&outcome);
    proof {
        lemma_mdl_elements_keyed(read.response@);
        lemma_mdl_elements_view(read.response@);
    }
    let r = verified_response(read);
    assert(reads_outcome(r, outcome));
    r
}

} // verus!
