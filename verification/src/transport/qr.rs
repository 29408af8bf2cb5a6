//! QR engagement: the ISO 18013-5 Device Engagement URI (`mdoc:<base64url>`)
//! for mDL discovery over BLE, and its rendering as a QR code for the
//! terminal and for the web page.

use vstd::prelude::*;
use isomdl::definitions::device_engagement::{
    BleOptions, CentralClientMode, DeviceEngagement, DeviceRetrievalMethod, PeripheralServerMode,
    Security,
};
use isomdl::definitions::helpers::{NonEmptyVec, Tag24};
use isomdl::definitions::session::create_p256_ephemeral_keys;
use isomdl::definitions::CoseKey;
use qrcode::render::unicode;
use qrcode::QrCode;
use uuid::Uuid;
use crate::text::{chars_of, string_from};

verus! {

#[verifier::external_type_specification]
#[verifier::external_body]
pub struct ExCoseKey(CoseKey);

#[verifier::external_type_specification]
#[verifier::external_body]
#[verifier::reject_recursive_types(T)]
pub struct ExTag24<T>(Tag24<T>);

/// Version of the device engagement structure that the terminal offers.
pub const ENGAGEMENT_VERSION: &'static str = "1.0";

/// Cipher suite identifier of the engagement's security field (P-256 ECDH).
pub const CIPHER_SUITE: u64 = 1;

/// Side length, in pixels, that the SVG rendering is at least.
pub const SVG_MIN_SIZE: u32 = 240;

/// Fill colour of the dark modules of the SVG rendering.
pub const SVG_DARK: &'static str = "#0a0e17";

/// Fill colour of the light modules of the SVG rendering.
pub const SVG_LIGHT: &'static str = "#ffffff";

/// Why an engagement URI or a QR rendering could not be made.
#[derive(Debug, Clone, Copy, PartialEq, Eq, Structural)]
pub enum QrError {
    /// The ephemeral P-256 key pair could not be created.
    EphemeralKey,
    /// The public key could not be wrapped as a tagged CBOR item.
    PublicKeyEncoding,
    /// The device engagement could not be wrapped as a tagged CBOR item.
    EngagementEncoding,
    /// The content does not fit a QR code.
    QrCode,
}

/// The text that reports a QR engagement or rendering error.
pub open spec fn qr_error_message(e: QrError) -> Seq<char> {
    match e {
        QrError::EphemeralKey => "Failed to create ephemeral P-256 keys"@,
        QrError::PublicKeyEncoding => "Failed to construct Tag24 public key"@,
        QrError::EngagementEncoding => "Failed to wrap DeviceEngagement in Tag24"@,
        QrError::QrCode => "Failed to generate QR code"@,
    }
}

impl QrError {
    /// The text that reports this error.
    pub fn message(&self) -> (r: String)
        ensures
            r@ == qr_error_message(*self),
    {
        match self {
            QrError::EphemeralKey => String::from_str("Failed to create ephemeral P-256 keys"),
            QrError::PublicKeyEncoding => String::from_str("Failed to construct Tag24 public key"),
            QrError::EngagementEncoding => String::from_str("Failed to wrap DeviceEngagement in Tag24"),
            QrError::QrCode => String::from_str("Failed to generate QR code"),
        }
    }
}

/// The scheme prefix of a device engagement URI.
pub open spec fn mdoc_prefix() -> Seq<char> {
    seq!['m', 'd', 'o', 'c', ':']
}

/// Whether `s` has the form of a device engagement URI.
pub open spec fn is_mdoc_uri(s: Seq<char>) -> bool {
    s.len() >= 5 && s.subrange(0, 5) == mdoc_prefix()
}

/// The character of the URL-safe base64 alphabet (RFC 4648, section 5)
/// for a 6-bit value: `A`-`Z`, `a`-`z`, `0`-`9`, `-`, `_`.
pub open spec fn base64url_char(v: int) -> char {
    if v < 26 {
        (65 + v) as char
    } else if v < 52 {
        (97 + (v - 26)) as char
    } else if v < 62 {
        (48 + (v - 52)) as char
    } else if v == 62 {
        '-'
    } else {
        '_'
    }
}

/// URL-safe base64 of `bytes`, without padding: each group of three bytes
/// gives four characters, a final group of two bytes three, of one byte two.
pub open spec fn base64url(bytes: Seq<u8>) -> Seq<char>
    decreases bytes.len(),
{
    let b0 = bytes[0] as int;
    let b1 = bytes[1] as int;
    let b2 = bytes[2] as int;
    if bytes.len() == 0 {
        seq![]
    } else if bytes.len() == 1 {
        seq![base64url_char(b0 / 4), base64url_char((b0 % 4) * 16)]
    } else if bytes.len() == 2 {
        seq![
            base64url_char(b0 / 4),
            base64url_char((b0 % 4) * 16 + b1 / 16),
            base64url_char((b1 % 16) * 4),
        ]
    } else {
        seq![
            base64url_char(b0 / 4),
            base64url_char((b0 % 4) * 16 + b1 / 16),
            base64url_char((b1 % 16) * 4 + b2 / 64),
            base64url_char(b2 % 64),
        ] + base64url(bytes.subrange(3, bytes.len() as int))
    }
}

/// The device engagement URI of engagement bytes: `mdoc:` and the bytes in
/// URL-safe base64 without padding.
pub open spec fn engagement_uri_of(bytes: Seq<u8>) -> Seq<char> {
    mdoc_prefix() + base64url(bytes)
}

/// An engagement URI has the `mdoc:` form.
pub proof fn lemma_engagement_uri_is_mdoc(bytes: Seq<u8>)
    ensures
        is_mdoc_uri(engagement_uri_of(bytes)),
{
    assert(engagement_uri_of(bytes).subrange(0, 5) =~= mdoc_prefix());
}

/// The BLE retrieval modes that a device engagement offers, each with the
/// GATT service UUID it is found by (the 16 bytes of the UUID, big-endian).
#[derive(Clone, Copy)]
pub struct BleModes {
    pub peripheral_server_uuid: Option<[u8; 16]>,
    pub central_client_uuid: Option<[u8; 16]>,
}

/// The fields of an ISO 18013-5 device engagement that the terminal sets:
/// the structure's version, the cipher suite of its security element, and
/// the BLE retrieval method it offers, if any. The engagement's public key
/// is the one generated with it; server retrieval and protocol information
/// are never offered.
pub struct EngagementFields {
    pub version: String,
    pub cipher_suite: u64,
    pub ble: Option<BleModes>,
}

/// The view of an optional UUID.
pub open spec fn uuid_view(u: Option<[u8; 16]>) -> Option<Seq<u8>> {
    match u {
        Some(a) => Some(a@),
        None => None,
    }
}

/// The view of the BLE retrieval method: the peripheral server and the
/// central client UUIDs.
pub open spec fn ble_view(b: Option<BleModes>) -> Option<(Option<Seq<u8>>, Option<Seq<u8>>)> {
    match b {
        Some(m) => Some((uuid_view(m.peripheral_server_uuid), uuid_view(m.central_client_uuid))),
        None => None,
    }
}

/// The CBOR bytes that isomdl writes (`Tag24::new`) for a device engagement
/// with this version, cipher suite, tagged public key (`key_cbor`, the
/// key's own CBOR bytes) and BLE retrieval method (peripheral server UUID,
/// central client UUID), with no server retrieval or protocol information.
pub uninterp spec fn device_engagement_cbor(
    version: Seq<char>,
    cipher_suite: u64,
    key_cbor: Seq<u8>,
    ble: Option<(Option<Seq<u8>>, Option<Seq<u8>>)>,
) -> Seq<u8>;

/// The engagement that the terminal offers for BLE central client mode
/// with service `uuid`.
pub open spec fn terminal_engagement(uuid: Seq<u8>, key_cbor: Seq<u8>) -> Seq<u8> {
    device_engagement_cbor(ENGAGEMENT_VERSION@, CIPHER_SUITE, key_cbor, Some((None, Some(uuid))))
}

/// Creates an ephemeral P-256 key pair with isomdl's
/// `create_p256_ephemeral_keys` and keeps its public COSE key. Its source
/// always returns `Ok` (it panics only if the system's random source
/// fails); the key itself is random, so nothing is claimed of it.
#[verifier::external_body]
fn ephemeral_public_key() -> (r: Option<CoseKey>)
    ensures
        r is Some,
{
    create_p256_ephemeral_keys().ok().map(|pair| pair.1)
}

/// `Tag24::<CoseKey>::new` of isomdl: the key with its CBOR encoding, as a
/// tagged data item (tag 24). Writing a COSE key to CBOR does not fail in
/// its source.
#[verifier::external_body]
fn tag_public_key(key: CoseKey) -> (r: Option<Tag24<CoseKey>>)
    ensures
        r is Some,
{
    Tag24::new(key).ok()
}

/// Builds isomdl's `DeviceEngagement` from `fields` and the tagged key,
/// field for field (each UUID by `Uuid::from_bytes`, a peripheral server
/// without device address, no server retrieval or protocol information),
/// wraps it with `Tag24::new` and writes it with `to_qr_code_uri`. Returns
/// the key's CBOR bytes and the URI; both steps always succeed in isomdl's
/// source, and the URI is `mdoc:` with the engagement's CBOR bytes in
/// URL-safe base64; those bytes are named.
#[verifier::external_body]
fn engagement_uri(fields: &EngagementFields, key: Tag24<CoseKey>) -> (r: Option<(Vec<u8>, String)>)
    ensures
        r is Some,
        (r->0).1@ == engagement_uri_of(
            device_engagement_cbor(fields.version@, fields.cipher_suite, (r->0).0@, ble_view(fields.ble)),
        ),
{
    let key_cbor = key.inner_bytes.clone();
    let ble = fields.ble.map(|m| BleOptions {
        peripheral_server_mode: m.peripheral_server_uuid.map(|u| PeripheralServerMode { uuid: Uuid::from_bytes(u), ble_device_address: None }),
        central_client_mode: m.central_client_uuid.map(|u| CentralClientMode { uuid: Uuid::from_bytes(u) }),
    });
    let methods = ble.map(|o| NonEmptyVec::new(DeviceRetrievalMethod::BLE(o)));
    let engagement = DeviceEngagement { version: fields.version.clone(), security: Security(fields.cipher_suite, key), device_retrieval_methods: methods, server_retrieval_methods: None, protocol_info: None };
    let uri = Tag24::new(engagement).ok()?.to_qr_code_uri().ok()?;
    Some((key_cbor, uri))
}

/// Generates an ISO 18013-5 Device Engagement URI (`mdoc:<base64url>`) for
/// mDL discovery over BLE: version "1.0", cipher suite 1 with a fresh
/// ephemeral P-256 key, and one retrieval method, BLE in central client
/// mode with service `ble_service_uuid` (its 16 bytes, big-endian).
pub fn generate_iso_mdl_engagement_uri(ble_service_uuid: [u8; 16]) -> (r: Result<String, QrError>)
    ensures
        r matches Ok(uri) && is_mdoc_uri(uri@) && exists|key_cbor: Seq<u8>|
            uri@ == engagement_uri_of(#[trigger] terminal_engagement(ble_service_uuid@, key_cbor)),
{
    let key = match ephemeral_public_key() {
        Some(k) => k,
        None => return Err(QrError::EphemeralKey),
    };
    let public_key = match tag_public_key(key) {
        Some(t) => t,
        None => return Err(QrError::PublicKeyEncoding),
    };
    let fields = EngagementFields {
        version: String::from_str(ENGAGEMENT_VERSION),
        cipher_suite: CIPHER_SUITE,
        ble: Some(BleModes { peripheral_server_uuid: None, central_client_uuid: Some(ble_service_uuid) }),
    };
    match engagement_uri(&fields, public_key) {
        Some((key_cbor, uri)) => {
            proof {
                assert(ble_view(fields.ble) == Some((None::<Seq<u8>>, Some(ble_service_uuid@))));
                assert(uri@ == engagement_uri_of(terminal_engagement(ble_service_uuid@, key_cbor@)));
                lemma_engagement_uri_is_mdoc(terminal_engagement(ble_service_uuid@, key_cbor@));
            }
            Ok(uri)
        },
        None => Err(QrError::EngagementEncoding),
    }
}

/// The view of an optional string.
pub open spec fn opt_text(s: Option<String>) -> Option<Seq<char>> {
    match s {
        Some(t) => Some(t@),
        None => None,
    }
}

/// The text that qrcode renders for `content` as a dense Unicode QR code
/// (two modules per character, colours swapped for a dark terminal, with a
/// quiet zone), or `None` when the content does not fit a QR code.
pub uninterp spec fn dense_qr_text(content: Seq<char>) -> Option<Seq<char>>;

/// The SVG document that qrcode renders for `content` with the given module
/// colours and minimum side length, or `None` when the content does not fit
/// a QR code.
pub uninterp spec fn svg_qr_document(content: Seq<char>, dark: Seq<char>, light: Seq<char>, min_size: u32) -> Option<Seq<char>>;

/// `QrCode::new` of qrcode on the content's bytes, rendered with
/// `render::<unicode::Dense1x2>()`, dark and light swapped, quiet zone on.
/// The result is named, a function of the content alone.
#[verifier::external_body]
fn qr_dense_unicode(content: &str) -> (r: Option<String>)
    ensures
        opt_text(r) == dense_qr_text(content@),
{
    QrCode::new(content.as_bytes()).ok().map(|code| {
        code.render::<unicode::Dense1x2>().dark_color(unicode::Dense1x2::Light).light_color(
            unicode::Dense1x2::Dark,
        ).quiet_zone(true).build()
    })
}

/// `QrCode::new` of qrcode on the content's bytes, rendered with
/// `render::<svg::Color>()` at the given minimum size and colours. The
/// result is named, a function of the arguments alone.
#[verifier::external_body]
fn qr_svg(content: &str, dark: &str, light: &str, min_size: u32) -> (r: Option<String>)
    ensures
        opt_text(r) == svg_qr_document(content@, dark@, light@, min_size),
{
    QrCode::new(content.as_bytes()).ok().map(|code| {
        code.render::<qrcode::render::svg::Color>().min_dimensions(min_size, min_size).dark_color(
            qrcode::render::svg::Color(dark),
        ).light_color(qrcode::render::svg::Color(light)).build()
    })
}

/// Renders a string into a high-density Unicode QR code suitable for
/// printing directly to the terminal.
pub fn render_terminal_qr(content: &str) -> (r: Result<String, QrError>)
    ensures
        match dense_qr_text(content@) {
            Some(t) => r matches Ok(s) && s@ == t,
            None => r == Err::<String, QrError>(QrError::QrCode),
        },
{
    match qr_dense_unicode(content) {
        Some(s) => Ok(s),
        None => Err(QrError::QrCode),
    }
}

/// The index of the first occurrence of `pat` in `s` at or after `from`,
/// if any.
pub open spec fn find_from(s: Seq<char>, pat: Seq<char>, from: int) -> Option<int>
    decreases s.len() + 1 - from,
{
    if from < 0 || from + pat.len() > s.len() {
        None
    } else if s.subrange(from, from + pat.len()) == pat {
        Some(from)
    } else {
        find_from(s, pat, from + 1)
    }
}

/// The index of the first occurrence of `pat` in `s`, if any.
pub open spec fn find_first(s: Seq<char>, pat: Seq<char>) -> Option<int> {
    find_from(s, pat, 0)
}

/// What `find_from` finds is an occurrence, at or after `from`.
pub proof fn lemma_find_from(s: Seq<char>, pat: Seq<char>, from: int)
    ensures
        find_from(s, pat, from) matches Some(k) ==> from <= k && k + pat.len() <= s.len()
            && s.subrange(k, k + pat.len()) == pat,
    decreases s.len() + 1 - from,
{
    if from >= 0 && from + pat.len() <= s.len() && s.subrange(from, from + pat.len()) != pat {
        lemma_find_from(s, pat, from + 1);
    }
}

/// The opening of an SVG element.
pub open spec fn svg_tag() -> Seq<char> {
    seq!['<', 's', 'v', 'g']
}

/// An SVG document without what precedes its `<svg` element (the XML
/// declaration); a document without `<svg` is kept whole.
pub open spec fn strip_before_svg(doc: Seq<char>) -> Seq<char> {
    match find_first(doc, svg_tag()) {
        Some(i) => doc.subrange(i, doc.len() as int),
        None => doc,
    }
}

/// Drops what precedes the first `<svg` of an SVG document, so that the
/// result can be embedded inline in a web page.
pub fn strip_xml_declaration(doc: &str) -> (r: String)
    ensures
        r@ == strip_before_svg(doc@),
{
    let chars = chars_of(doc);
    let n = chars.len();
    let ghost pat = svg_tag();
    let mut i: usize = 0;
    while n >= 4 && i <= n - 4
        invariant
            i <= n,
            pat == svg_tag(),
            n == doc@.len(),
            chars@ == doc@,
            find_first(doc@, pat) == find_from(doc@, pat, i as int),
        decreases n - i,
    {
        let found = chars[i] == '<' && chars[i + 1] == 's' && chars[i + 2] == 'v' && chars[i + 3]
            == 'g';
        proof {
            let w = doc@.subrange(i as int, i + 4);
            if found {
                assert(w =~= pat);
            } else if w == pat {
                assert(w[0] == '<' && w[1] == 's' && w[2] == 'v' && w[3] == 'g');
            }
        }
        if found {
            return string_from(&chars, i);
        }
        i = i + 1;
    }
    assert(find_from(doc@, pat, i as int) is None);
    let r = string_from(&chars, 0);
    assert(doc@.subrange(0, doc@.len() as int) =~= doc@);
    r
}

/// An SVG document that holds an `<svg` element is embedded from that
/// element on: the result starts with `<svg`, is a suffix of the document,
/// and no `<svg` precedes it.
pub proof fn lemma_stripped_svg_starts_with_tag(doc: Seq<char>)
    requires
        find_first(doc, svg_tag()) is Some,
    ensures
        strip_before_svg(doc).len() >= 4,
        strip_before_svg(doc).subrange(0, 4) == svg_tag(),
        doc.subrange(doc.len() - strip_before_svg(doc).len(), doc.len() as int) == strip_before_svg(doc),
{
    lemma_find_from(doc, svg_tag(), 0);
    let i = find_first(doc, svg_tag())->0;
    assert(doc.subrange(i, doc.len() as int).subrange(0, 4) =~= doc.subrange(i, i + 4));
    assert(doc.subrange(doc.len() - strip_before_svg(doc).len(), doc.len() as int) =~= strip_before_svg(doc));
}

/// Renders a string into an SVG QR code suitable for direct inline DOM
/// embedding.
pub fn render_svg_qr(content: &str) -> (r: Result<String, QrError>)
    ensures
        match svg_qr_document(content@, SVG_DARK@, SVG_LIGHT@, SVG_MIN_SIZE) {
            Some(doc) => r matches Ok(s) && s@ == strip_before_svg(doc),
            None => r == Err::<String, QrError>(QrError::QrCode),
        },
{
    match qr_svg(content, SVG_DARK, SVG_LIGHT, SVG_MIN_SIZE) {
        Some(raw) => Ok(strip_xml_declaration(raw.as_str())),
        None => Err(QrError::QrCode),
    }
}

} // verus!
