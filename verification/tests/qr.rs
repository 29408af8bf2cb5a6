use eudi_access::transport::qr::{
    generate_iso_mdl_engagement_uri, render_svg_qr, render_terminal_qr, strip_xml_declaration,
};
use isomdl::definitions::device_engagement::{DeviceEngagement, DeviceRetrievalMethod};
use isomdl::definitions::helpers::Tag24;
use uuid::Uuid;

#[test]
fn test_generate_iso_mdl_engagement_uri() {
    let test_uuid = Uuid::new_v4();
    let uri = generate_iso_mdl_engagement_uri(*test_uuid.as_bytes()).expect("should generate mdoc QR URI");
    assert!(uri.starts_with("mdoc:"), "ISO 18013-5 discovery URI must start with mdoc:");

    // Verify it can be decoded back by isomdl
    let parsed = Tag24::<DeviceEngagement>::from_qr_code_uri(&uri)
        .expect("should parse back from QR URI");
    assert_eq!(parsed.as_ref().version, "1.0");

    let rendered = render_terminal_qr(&uri).expect("rendering QR code should succeed");
    assert!(!rendered.is_empty());

    let svg = render_svg_qr(&uri).expect("rendering SVG QR should succeed");
    assert!(svg.starts_with("<svg"), "SVG QR must start with <svg tag");
    assert!(svg.contains("</svg>"), "SVG QR must contain </svg> closing tag");
}

#[test]
fn engagement_uri_carries_the_ble_central_uuid() {
    let uuid = Uuid::from_bytes([
        0x12, 0x34, 0x56, 0x78, 0x9a, 0xbc, 0xde, 0xf0, 0x11, 0x22, 0x33, 0x44, 0x55, 0x66, 0x77,
        0x88,
    ]);
    let uri = generate_iso_mdl_engagement_uri(*uuid.as_bytes()).unwrap();
    let parsed = Tag24::<DeviceEngagement>::from_qr_code_uri(&uri).unwrap();
    let engagement = parsed.as_ref();
    assert_eq!(engagement.security.0, 1);
    assert!(engagement.server_retrieval_methods.is_none());
    let methods = engagement.device_retrieval_methods.as_ref().unwrap();
    assert_eq!(methods.len(), 1);
    match &methods[0] {
        DeviceRetrievalMethod::BLE(opt) => {
            assert!(opt.peripheral_server_mode.is_none());
            assert_eq!(opt.central_client_mode.as_ref().unwrap().uuid, uuid);
        }
        _ => panic!("expected a BLE retrieval method"),
    }
}

#[test]
fn engagement_uris_differ_by_ephemeral_key() {
    let uuid = Uuid::new_v4();
    let a = generate_iso_mdl_engagement_uri(*uuid.as_bytes()).unwrap();
    let b = generate_iso_mdl_engagement_uri(*uuid.as_bytes()).unwrap();
    assert_ne!(a, b);
}

#[test]
fn svg_rendering_drops_the_xml_declaration() {
    let svg = render_svg_qr("mdoc:abc").unwrap();
    assert!(svg.starts_with("<svg xmlns=\"http://www.w3.org/2000/svg\""));
    assert!(!svg.contains("<?xml"));
    assert!(svg.contains("fill=\"#0a0e17\""));
    assert!(svg.contains("fill=\"#ffffff\""));
}

#[test]
fn terminal_rendering_uses_block_characters() {
    let text = render_terminal_qr("mdoc:abc").unwrap();
    assert!(text.lines().count() > 10);
    assert!(text.chars().any(|c| c == '█' || c == '▀' || c == '▄'));
}

#[test]
fn content_too_long_for_a_qr_code_is_an_error() {
    let long = "x".repeat(8000);
    assert!(render_terminal_qr(&long).is_err());
    assert!(render_svg_qr(&long).is_err());
}

#[test]
fn strip_xml_declaration_keeps_from_first_svg_tag() {
    assert_eq!(strip_xml_declaration("<?xml?><svg a><svg b>"), "<svg a><svg b>");
    assert_eq!(strip_xml_declaration("<svg>"), "<svg>");
    assert_eq!(strip_xml_declaration("no tag here"), "no tag here");
    assert_eq!(strip_xml_declaration("<sv"), "<sv");
    assert_eq!(strip_xml_declaration(""), "");
}
