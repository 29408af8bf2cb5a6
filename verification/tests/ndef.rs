use eudi_access::transport::ndef::{
    extract_ble_uuid, parse_handover_ndef, read_record_layout, NdefError, RecordLayout,
};

const DE_TYPE: &[u8] = b"iso.org:18013:deviceengagement";
const BLE_TYPE: &[u8] = b"application/vnd.bluetooth.le.oob";

const UUID_BE: [u8; 16] = [
    0x12, 0x34, 0x56, 0x78, 0x9a, 0xbc, 0xde, 0xf0, 0x11, 0x22, 0x33, 0x44, 0x55, 0x66, 0x77, 0x88,
];

fn uuid_le() -> Vec<u8> {
    let mut v = UUID_BE.to_vec();
    v.reverse();
    v
}

fn short_record(header: u8, rtype: &[u8], payload: &[u8]) -> Vec<u8> {
    let mut r = vec![header, rtype.len() as u8, payload.len() as u8];
    r.extend_from_slice(rtype);
    r.extend_from_slice(payload);
    r
}

fn long_record(header: u8, rtype: &[u8], payload: &[u8]) -> Vec<u8> {
    let mut r = vec![header, rtype.len() as u8];
    r.extend_from_slice(&(payload.len() as u32).to_be_bytes());
    r.extend_from_slice(rtype);
    r.extend_from_slice(payload);
    r
}

fn ble_payload() -> Vec<u8> {
    let mut p = vec![0x02, 0x1c, 0x00, 0x11, 0x07];
    p.extend_from_slice(&uuid_le());
    p
}

fn handover(de_payload: &[u8]) -> Vec<u8> {
    let mut m = short_record(0x94, DE_TYPE, de_payload);
    m.extend(short_record(0x52, BLE_TYPE, &ble_payload()));
    m
}

#[test]
fn parses_engagement_and_uuid() {
    let ndef = handover(&[0x01, 0xa1, 0x00, 0x01]);
    let (de, uuid) = parse_handover_ndef(&ndef).unwrap();
    assert_eq!(de, vec![0xa1, 0x00, 0x01]);
    assert_eq!(uuid, UUID_BE);
}

#[test]
fn payload_without_version_byte_is_taken_whole() {
    let ndef = handover(&[0xa1, 0x00, 0x01]);
    let (de, _) = parse_handover_ndef(&ndef).unwrap();
    assert_eq!(de, vec![0xa1, 0x00, 0x01]);
}

#[test]
fn lone_version_byte_is_taken_as_payload() {
    let ndef = handover(&[0x01]);
    let (de, _) = parse_handover_ndef(&ndef).unwrap();
    assert_eq!(de, vec![0x01]);
}

#[test]
fn long_record_with_id_is_parsed() {
    let payload: Vec<u8> = (0..300u32).map(|i| (i % 251) as u8 + 2).collect();
    // TNF 4, not short, IL set, with a 3-byte id.
    let mut m = vec![0x8c, DE_TYPE.len() as u8];
    m.extend_from_slice(&(payload.len() as u32).to_be_bytes());
    m.push(3);
    m.extend_from_slice(DE_TYPE);
    m.extend_from_slice(&[9, 9, 9]);
    m.extend_from_slice(&payload);
    m.extend(long_record(0x42, BLE_TYPE, &ble_payload()));
    let (de, uuid) = parse_handover_ndef(&m).unwrap();
    assert_eq!(de, payload);
    assert_eq!(uuid, UUID_BE);
}

#[test]
fn later_records_replace_earlier_ones() {
    let mut m = handover(&[0x01, 0xaa]);
    m.extend(short_record(0x14, DE_TYPE, &[0xbb, 0xcc]));
    let (de, _) = parse_handover_ndef(&m).unwrap();
    assert_eq!(de, vec![0xbb, 0xcc]);

    // A later BLE record without a UUID clears the one found before.
    let mut m = handover(&[0xa0]);
    m.extend(short_record(0x12, BLE_TYPE, &[0x02, 0x1c, 0x00]));
    assert_eq!(parse_handover_ndef(&m), Err(NdefError::BleOobMissing));
}

#[test]
fn empty_engagement_payload_is_ignored() {
    let ndef = handover(&[]);
    assert_eq!(parse_handover_ndef(&ndef), Err(NdefError::EngagementMissing));
}

#[test]
fn wrong_tnf_or_type_is_ignored() {
    let mut m = short_record(0x12, DE_TYPE, &[0xa0]);
    m.extend(short_record(0x14, b"iso.org:18013:deviceengagemenT", &[0xa0]));
    m.extend(short_record(0x12, BLE_TYPE, &ble_payload()));
    assert_eq!(parse_handover_ndef(&m), Err(NdefError::EngagementMissing));
}

#[test]
fn missing_ble_record_is_an_error() {
    let m = short_record(0x94, DE_TYPE, &[0xa0]);
    assert_eq!(parse_handover_ndef(&m), Err(NdefError::BleOobMissing));
}

#[test]
fn empty_message_has_no_engagement() {
    assert_eq!(parse_handover_ndef(&[]), Err(NdefError::EngagementMissing));
}

#[test]
fn record_past_the_end_is_an_error() {
    let mut m = handover(&[0xa0]);
    m.extend_from_slice(&[0x11, 0x01, 0x10, 0x55]);
    assert_eq!(parse_handover_ndef(&m), Err(NdefError::RecordOutOfBounds));
}

#[test]
fn truncated_header_ends_the_walk() {
    let mut m = handover(&[0xa0]);
    m.push(0x11);
    assert!(parse_handover_ndef(&m).is_ok());
    let mut m = handover(&[0xa0]);
    m.extend_from_slice(&[0x01, 0x00, 0x00, 0x00]); // long record, length cut short
    assert!(parse_handover_ndef(&m).is_ok());
}

#[test]
fn record_layouts() {
    assert_eq!(read_record_layout(&[0x11], 0), RecordLayout::Truncated);
    assert_eq!(read_record_layout(&[0x11, 0x01], 0), RecordLayout::Truncated);
    assert_eq!(read_record_layout(&[0x11, 0x01, 0x05, 0xaa], 0), RecordLayout::OutOfBounds);
    assert_eq!(
        read_record_layout(&[0x19, 0x01, 0x02, 0x01, 0xaa, 0xbb, 0xcc, 0xdd], 0),
        RecordLayout::Record { tnf: 1, type_start: 4, type_len: 1, payload_start: 6, end: 8 }
    );
    assert_eq!(
        read_record_layout(&[0xe7, 0x01, 0x00, 0x00, 0x00, 0x01, 0xaa, 0xbb], 0),
        RecordLayout::Record { tnf: 7, type_start: 6, type_len: 1, payload_start: 7, end: 8 }
    );
}

#[test]
fn ble_uuid_from_incomplete_list() {
    let mut p = vec![0x11, 0x06];
    p.extend_from_slice(&uuid_le());
    assert_eq!(extract_ble_uuid(&p), Some(UUID_BE));
}

#[test]
fn ble_uuid_skips_other_structures() {
    let mut p = vec![0x03, 0x03, 0xaa, 0xbb, 0x05, 0x07, 1, 2, 3, 4, 0x11, 0x07];
    p.extend_from_slice(&uuid_le());
    assert_eq!(extract_ble_uuid(&p), Some(UUID_BE));
}

#[test]
fn ble_uuid_takes_the_first_sixteen_bytes() {
    let mut p = vec![0x13, 0x07];
    p.extend_from_slice(&uuid_le());
    p.extend_from_slice(&[0xee, 0xee]);
    assert_eq!(extract_ble_uuid(&p), Some(UUID_BE));
}

#[test]
fn ble_uuid_stops_at_zero_length_or_overrun() {
    let mut p = vec![0x00, 0x11, 0x07];
    p.extend_from_slice(&uuid_le());
    assert_eq!(extract_ble_uuid(&p), None);
    let mut p = vec![0x12, 0x07];
    p.extend_from_slice(&uuid_le());
    assert_eq!(extract_ble_uuid(&p), None);
    assert_eq!(extract_ble_uuid(&[]), None);
}

#[test]
fn up_to_two_trailing_bytes_change_nothing() {
    for ndef in [handover(&[0x01, 0xa1, 0x00, 0x01]), short_record(0x94, DE_TYPE, &[0xa0])] {
        let whole = parse_handover_ndef(&ndef);
        for tail in [vec![], vec![0x91], vec![0x11, 0x05], vec![0x00, 0xff]] {
            let mut longer = ndef.clone();
            longer.extend_from_slice(&tail);
            assert_eq!(parse_handover_ndef(&longer), whole, "tail {tail:?}");
        }
    }
}
