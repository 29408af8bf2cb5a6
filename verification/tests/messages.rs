use eudi_access::reader::ReaderError;
use eudi_access::transport::ble::BleError;
use eudi_access::transport::ndef::NdefError;
use eudi_access::transport::nfc::NfcError;
use eudi_access::transport::qr::QrError;

#[test]
fn nfc_error_messages() {
    assert_eq!(NfcError::ShortApdu.message(), "short APDU response");
    assert_eq!(NfcError::ApduStatus { sw1: 0x6A, sw2: 0x82 }.message(), "APDU error SW=6A82");
    assert_eq!(NfcError::ApduStatus { sw1: 0x00, sw2: 0xFF }.message(), "APDU error SW=00FF");
    assert_eq!(NfcError::ApduStatus { sw1: 0x9F, sw2: 0x0A }.message(), "APDU error SW=9F0A");
    assert_eq!(
        NfcError::Ndef(NdefError::BleOobMissing).message(),
        "BLE OOB record not found in NDEF"
    );
}

#[test]
fn ndef_error_messages() {
    assert_eq!(NdefError::RecordOutOfBounds.message(), "NDEF record length out of bounds");
    assert_eq!(NdefError::EngagementMissing.message(), "Device Engagement record not found in NDEF");
}

#[test]
fn ble_error_messages() {
    assert_eq!(BleError::EmptyFrame.message(), "empty BLE frame");
    assert_eq!(BleError::ChannelClosed.message(), "BLE channel closed");
    assert_eq!(BleError::MissingClient2Server.message(), "Missing Client2Server char");
    assert_eq!(BleError::MissingServer2Client.message(), "Missing Server2Client char");
    assert_eq!(BleError::MissingState.message(), "Missing State char");
}

#[test]
fn reader_and_qr_error_messages() {
    assert_eq!(
        ReaderError::InvalidEngagement("bad".to_string()).message(),
        "parsing DeviceEngagement: bad"
    );
    assert_eq!(
        ReaderError::Session("failed to construct QR code".to_string()).message(),
        "establishing reader session: failed to construct QR code"
    );
    assert_eq!(
        ReaderError::TrustAnchors("x".to_string()).message(),
        "building trust anchor registry: x"
    );
    assert_eq!(QrError::QrCode.message(), "Failed to generate QR code");
    assert_eq!(QrError::EphemeralKey.message(), "Failed to create ephemeral P-256 keys");
}
