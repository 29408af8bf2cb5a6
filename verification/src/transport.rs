//! Transports between the terminal and the holder's phone: NFC engagement
//! (NDEF handover over ISO 7816-4 APDUs), BLE data retrieval and QR
//! engagement.

pub mod ble;
pub mod ndef;
pub mod nfc;
pub mod qr;

use vstd::prelude::*;

verus! {

/// A DeviceEngagement received over NFC, with the BLE service UUID extracted
/// from its retrieval methods.
pub struct Engagement {
    /// Raw `DeviceEngagement` CBOR bytes.
    pub bytes: Vec<u8>,
    /// BLE service UUID announced inside the engagement, as the 16 bytes of
    /// the UUID in big-endian order; the phone is found over GATT by it.
    pub ble_service_uuid: [u8; 16],
}

/// The transports over which an engagement can arrive.
#[derive(Debug, Clone, Copy, PartialEq, Eq, Structural)]
pub enum TransportKind {
    Ble,
    Nfc,
}

} // verus!
