//! The NDEF Handover Select message that a holder's phone serves over NFC:
//! its records carry the mdoc `DeviceEngagement` and a Bluetooth LE
//! out-of-band record with the BLE service UUID.

use vstd::prelude::*;
use crate::bytes::{copy_range, range_eq};

verus! {

/// Record type of the ISO 18013-5 device engagement record
/// ("iso.org:18013:deviceengagement", an NFC Forum external type).
pub const DEVICE_ENGAGEMENT_TYPE: [u8; 30] = [
    0x69, 0x73, 0x6f, 0x2e, 0x6f, 0x72, 0x67, 0x3a, 0x31, 0x38, 0x30, 0x31, 0x33, 0x3a, 0x64,
    0x65, 0x76, 0x69, 0x63, 0x65, 0x65, 0x6e, 0x67, 0x61, 0x67, 0x65, 0x6d, 0x65, 0x6e, 0x74,
];

/// Record type of the Bluetooth LE out-of-band record
/// ("application/vnd.bluetooth.le.oob", a MIME type).
pub const BLE_OOB_TYPE: [u8; 32] = [
    0x61, 0x70, 0x70, 0x6c, 0x69, 0x63, 0x61, 0x74, 0x69, 0x6f, 0x6e, 0x2f, 0x76, 0x6e, 0x64,
    0x2e, 0x62, 0x6c, 0x75, 0x65, 0x74, 0x6f, 0x6f, 0x74, 0x68, 0x2e, 0x6c, 0x65, 0x2e, 0x6f,
    0x6f, 0x62,
];

/// Type Name Format of an NFC Forum external type record.
pub const TNF_EXTERNAL: u8 = 4;

/// Type Name Format of a MIME media record.
pub const TNF_MIME: u8 = 2;

/// Why an NDEF handover could not be read.
#[derive(Debug, Clone, Copy, PartialEq, Eq, Structural)]
pub enum NdefError {
    /// A record's type, id and payload run past the end of the message.
    RecordOutOfBounds,
    /// No device engagement record with a payload was found.
    EngagementMissing,
    /// No Bluetooth LE out-of-band record with a 128-bit service UUID was found.
    BleOobMissing,
}

/// The text that reports an NDEF error.
pub open spec fn ndef_error_message(e: NdefError) -> Seq<char> {
    match e {
        NdefError::RecordOutOfBounds => "NDEF record length out of bounds"@,
        NdefError::EngagementMissing => "Device Engagement record not found in NDEF"@,
        NdefError::BleOobMissing => "BLE OOB record not found in NDEF"@,
    }
}

impl NdefError {
    /// The text that reports this error.
    pub fn message(&self) -> (r: String)
        ensures
            r@ == ndef_error_message(*self),
    {
        match self {
            NdefError::RecordOutOfBounds => String::from_str("NDEF record length out of bounds"),
            NdefError::EngagementMissing => String::from_str("Device Engagement record not found in NDEF"),
            NdefError::BleOobMissing => String::from_str("BLE OOB record not found in NDEF"),
        }
    }
}

// ---------------------------------------------------------------------------
// BLE advertising data
// ---------------------------------------------------------------------------

/// The 128-bit service UUID, in big-endian byte order, carried by the first
/// AD structure at or after `offset` of type 0x06 or 0x07 (incomplete or
/// complete list of 128-bit UUIDs) with at least 16 data bytes. The scan
/// stops at a zero length or at a structure that runs past the payload.
/// BLE carries UUIDs little-endian, so the 16 bytes are reversed.
pub open spec fn scan_ad(p: Seq<u8>, offset: int) -> Option<Seq<u8>>
    decreases p.len() - offset,
{
    if offset < 0 || offset >= p.len() {
        None
    } else {
        let len = p[offset] as int;
        if len == 0 || offset + 1 + len > p.len() {
            None
        } else {
            let ad_type = p[offset + 1];
            let data = p.subrange(offset + 2, offset + 1 + len);
            if (ad_type == 6 || ad_type == 7) && data.len() >= 16 {
                Some(data.take(16).reverse())
            } else {
                scan_ad(p, offset + 1 + len)
            }
        }
    }
}

/// The service UUID of a Bluetooth LE out-of-band payload (a list of
/// `[length][type][data]` AD structures).
pub open spec fn ble_uuid_of(payload: Seq<u8>) -> Option<Seq<u8>> {
    scan_ad(payload, 0)
}

/// The view of an optional UUID.
pub open spec fn opt_uuid(u: Option<[u8; 16]>) -> Option<Seq<u8>> {
    match u {
        Some(a) => Some(a@),
        None => None,
    }
}

/// Reverses `p[start..start + 16]` into a UUID.
fn reversed_uuid(p: &[u8], start: usize) -> (u: [u8; 16])
    requires
        start + 16 <= p@.len(),
    ensures
        u@ == p@.subrange(start as int, start + 16).reverse(),
{
    let n = p.len();
    let mut u: [u8; 16] = [0u8; 16];
    let mut i: usize = 0;
    while i < 16
        invariant
            i <= 16,
            n == p@.len(),
            start + 16 <= p@.len(),
            u@.len() == 16,
            forall|j: int| 0 <= j < i ==> u@[j] == p@[start + 15 - j],
        decreases 16 - i,
    {
        u[i] = p[start + 15 - i];
        i = i + 1;
    }
    assert(u@ =~= p@.subrange(start as int, start + 16).reverse());
    u
}

/// Parses BLE advertising data to find a 128-bit service UUID; the result is
/// in big-endian byte order, as a `uuid::Uuid` is built from bytes.
pub fn extract_ble_uuid(payload: &[u8]) -> (r: Option<[u8; 16]>)
    ensures
        opt_uuid(r) == ble_uuid_of(payload@),
{
    let mut offset: usize = 0;
    while offset < payload.len()
        invariant
            offset <= payload@.len(),
            scan_ad(payload@, 0) == scan_ad(payload@, offset as int),
        decreases payload@.len() - offset,
    {
        let len = payload[offset] as usize;
        let rest = payload.len() - offset;
        if len == 0 || len + 1 > rest {
            return None;
        }
        let ad_type = payload[offset + 1];
        let data_start = offset + 2;
        let data_len = len - 1;
        if (ad_type == 6 || ad_type == 7) && data_len >= 16 {
            let u = reversed_uuid(payload, data_start);
            assert(payload@.subrange(data_start as int, offset + 1 + len).take(16)
                =~= payload@.subrange(data_start as int, data_start + 16));
            return Some(u);
        }
        offset = offset + 1 + len;
    }
    None
}

// ---------------------------------------------------------------------------
// NDEF records
// ---------------------------------------------------------------------------

/// A big-endian 32-bit length.
pub open spec fn be32(b0: u8, b1: u8, b2: u8, b3: u8) -> int {
    b0 * 0x1000000 + b1 * 0x10000 + b2 * 0x100 + b3
}

/// The engagement bytes carried by a device engagement payload: a leading
/// 0x01 version byte is dropped when more bytes follow it, otherwise the
/// payload is taken as raw CBOR.
pub open spec fn engagement_of(payload: Seq<u8>) -> Seq<u8> {
    if payload[0] == 1 && payload.len() > 1 {
        payload.subrange(1, payload.len() as int)
    } else {
        payload
    }
}

/// What the record header at `offset` says.
#[derive(Debug, Clone, Copy, PartialEq, Eq, Structural)]
pub enum RecordLayout {
    /// The message ends inside the header: the walk stops here.
    Truncated,
    /// The record's type, id and payload run past the end of the message.
    OutOfBounds,
    /// A complete record: its Type Name Format, where its type and its
    /// payload stand, and where the next record begins.
    Record { tnf: u8, type_start: usize, type_len: usize, payload_start: usize, end: usize },
}

/// The layout of the NDEF record whose header starts at `offset`: a header
/// byte (SR = 0x10 short record, IL = 0x08 id length present, TNF = low
/// three bits), a type length byte, a payload length (one byte for a short
/// record, else four bytes big-endian), an id length byte when IL is set,
/// then the type, the id and the payload.
pub open spec fn record_layout(ndef: Seq<u8>, offset: int) -> RecordLayout {
    let header = ndef[offset];
    let sr = header & 0x10 != 0;
    let il = header & 0x08 != 0;
    let tnf = header & 0x07;
    let o1 = offset + 1;
    if o1 >= ndef.len() {
        RecordLayout::Truncated
    } else {
        let type_len = ndef[o1] as int;
        let o2 = o1 + 1;
        if (sr && o2 >= ndef.len()) || (!sr && o2 + 3 >= ndef.len()) {
            RecordLayout::Truncated
        } else {
            let payload_len = if sr {
                ndef[o2] as int
            } else {
                be32(ndef[o2], ndef[o2 + 1], ndef[o2 + 2], ndef[o2 + 3])
            };
            let o3 = if sr { o2 + 1 } else { o2 + 4 };
            if il && o3 >= ndef.len() {
                RecordLayout::Truncated
            } else {
                let id_len = if il { ndef[o3] as int } else { 0 };
                let o4 = if il { o3 + 1 } else { o3 };
                let end = o4 + type_len + id_len + payload_len;
                if end > ndef.len() {
                    RecordLayout::OutOfBounds
                } else {
                    RecordLayout::Record {
                        tnf,
                        type_start: o4 as usize,
                        type_len: type_len as usize,
                        payload_start: (o4 + type_len + id_len) as usize,
                        end: end as usize,
                    }
                }
            }
        }
    }
}

/// A record layout that lies within a message of `n` bytes after `offset`.
pub open spec fn layout_in_bounds(l: RecordLayout, offset: int, n: int) -> bool {
    match l {
        RecordLayout::Record { tnf, type_start, type_len, payload_start, end } => {
            &&& offset + 2 <= type_start
            &&& type_start + type_len <= payload_start <= end <= n
        },
        _ => true,
    }
}

/// Walks the NDEF records from `offset`, keeping the engagement bytes of the
/// last device engagement record with a non-empty payload and the UUID that
/// the last Bluetooth LE OOB record yields. A header cut short by the end of
/// the message ends the walk; a record whose type, id and payload run past
/// the end is an error.
pub open spec fn scan_records(
    ndef: Seq<u8>,
    offset: int,
    eng: Option<Seq<u8>>,
    ble: Option<Seq<u8>>,
) -> Result<(Option<Seq<u8>>, Option<Seq<u8>>), NdefError>
    decreases ndef.len() - offset,
{
    if offset < 0 || offset >= ndef.len() {
        Ok((eng, ble))
    } else {
        match record_layout(ndef, offset) {
            RecordLayout::Truncated => Ok((eng, ble)),
            RecordLayout::OutOfBounds => Err(NdefError::RecordOutOfBounds),
            RecordLayout::Record { tnf, type_start, type_len, payload_start, end } => {
                // A complete record ends after its header (see `read_record_layout`).
                if end <= offset {
                    Ok((eng, ble))
                } else {
                    let record_type = ndef.subrange(type_start as int, type_start + type_len);
                    let payload = ndef.subrange(payload_start as int, end as int);
                    let eng2 = if tnf == TNF_EXTERNAL && record_type == DEVICE_ENGAGEMENT_TYPE@
                        && payload.len() > 0 {
                        Some(engagement_of(payload))
                    } else {
                        eng
                    };
                    let ble2 = if tnf == TNF_MIME && record_type == BLE_OOB_TYPE@ {
                        ble_uuid_of(payload)
                    } else {
                        ble
                    };
                    scan_records(ndef, end as int, eng2, ble2)
                }
            },
        }
    }
}

/// The device engagement bytes and BLE service UUID of an NDEF Handover
/// Select message, or why there are none.
pub open spec fn handover_of(ndef: Seq<u8>) -> Result<(Seq<u8>, Seq<u8>), NdefError> {
    match scan_records(ndef, 0, None, None) {
        Err(e) => Err(e),
        Ok((None, _)) => Err(NdefError::EngagementMissing),
        Ok((Some(_), None)) => Err(NdefError::BleOobMissing),
        Ok((Some(e), Some(u))) => Ok((e, u)),
    }
}

/// The view of a parsed handover.
pub open spec fn handover_view(r: Result<(Vec<u8>, [u8; 16]), NdefError>) -> Result<
    (Seq<u8>, Seq<u8>),
    NdefError,
> {
    match r {
        Ok((e, u)) => Ok((e@, u@)),
        Err(x) => Err(x),
    }
}

/// The view of optional engagement bytes.
pub open spec fn opt_bytes(v: Option<Vec<u8>>) -> Option<Seq<u8>> {
    match v {
        Some(b) => Some(b@),
        None => None,
    }
}

/// Reads the layout of the NDEF record whose header starts at `offset`.
pub fn read_record_layout(ndef: &[u8], offset: usize) -> (l: RecordLayout)
    requires
        offset < ndef@.len(),
    ensures
        l == record_layout(ndef@, offset as int),
        layout_in_bounds(l, offset as int, ndef@.len() as int),
{
    let n = ndef.len();
    let header = ndef[offset];
    let sr = (header & 0x10) != 0;
    let il = (header & 0x08) != 0;
    let tnf = header & 0x07;
    let o1 = offset + 1;
    if o1 >= n {
        return RecordLayout::Truncated;
    }
    let type_len = ndef[o1] as usize;
    let o2 = o1 + 1;
    let payload_len: u64;
    let o3: usize;
    if sr {
        if o2 >= n {
            return RecordLayout::Truncated;
        }
        payload_len = ndef[o2] as u64;
        o3 = o2 + 1;
    } else {
        if n - o2 <= 3 {
            return RecordLayout::Truncated;
        }
        payload_len = (ndef[o2] as u64) * 0x1000000 + (ndef[o2 + 1] as u64) * 0x10000 + (ndef[o2
            + 2] as u64) * 0x100 + (ndef[o2 + 3] as u64);
        o3 = o2 + 4;
    }
    let id_len: usize;
    let o4: usize;
    if il {
        if o3 >= n {
            return RecordLayout::Truncated;
        }
        id_len = ndef[o3] as usize;
        o4 = o3 + 1;
    } else {
        id_len = 0;
        o4 = o3;
    }
    // Ensure we don't read out of bounds.
    if (type_len as u64) + (id_len as u64) + payload_len > ((n - o4) as u64) {
        return RecordLayout::OutOfBounds;
    }
    let payload_start = o4 + type_len + id_len;
    let end = payload_start + payload_len as usize;
    RecordLayout::Record { tnf, type_start: o4, type_len, payload_start, end }
}

/// Pulls the mdoc `DeviceEngagement` bytes and the BLE service UUID
/// (big-endian bytes) out of the NDEF Handover Select message.
pub fn parse_handover_ndef(ndef: &[u8]) -> (r: Result<(Vec<u8>, [u8; 16]), NdefError>)
    ensures
        handover_view(r) == handover_of(ndef@),
{
    let mut engagement_bytes: Option<Vec<u8>> = None;
    let mut ble_uuid: Option<[u8; 16]> = None;
    let n = ndef.len();
    let mut offset: usize = 0;
    while offset < n
        invariant
            n == ndef@.len(),
            offset <= n,
            scan_records(ndef@, 0, None, None) == scan_records(
                ndef@,
                offset as int,
                opt_bytes(engagement_bytes),
                opt_uuid(ble_uuid),
            ),
        ensures
            scan_records(ndef@, 0, None, None) == Ok::<_, NdefError>(
                (opt_bytes(engagement_bytes), opt_uuid(ble_uuid)),
            ),
        decreases n - offset,
    {
        let layout = read_record_layout(ndef, offset);
        match layout {
            RecordLayout::Truncated => {
                break;
            },
            RecordLayout::OutOfBounds => {
                return Err(NdefError::RecordOutOfBounds);
            },
            RecordLayout::Record { tnf, type_start, type_len, payload_start, end } => {
                let ghost payload = ndef@.subrange(payload_start as int, end as int);
                if tnf == TNF_EXTERNAL && range_eq(
                    ndef,
                    type_start,
                    type_len,
                    &DEVICE_ENGAGEMENT_TYPE,
                ) && payload_start < end {
                    if ndef[payload_start] == 0x01 && end - payload_start > 1 {
                        engagement_bytes = Some(copy_range(ndef, payload_start + 1, end));
                        assert(ndef@.subrange(payload_start + 1, end as int) =~= payload.subrange(
                            1,
                            payload.len() as int,
                        ));
                    } else {
                        engagement_bytes = Some(copy_range(ndef, payload_start, end));
                    }
                }
                if tnf == TNF_MIME && range_eq(ndef, type_start, type_len, &BLE_OOB_TYPE) {
                    let payload_bytes = copy_range(ndef, payload_start, end);
                    ble_uuid = extract_ble_uuid(payload_bytes.as_slice());
                }
                offset = end;
            },
        }
    }
    match engagement_bytes {
        None => Err(NdefError::EngagementMissing),
        Some(e) => match ble_uuid {
            None => Err(NdefError::BleOobMissing),
            Some(u) => Ok((e, u)),
        },
    }
}

/// A short NDEF record: header byte, type length, one-byte payload length,
/// the type, then the payload.
pub open spec fn short_record(header: u8, record_type: Seq<u8>, payload: Seq<u8>) -> Seq<u8> {
    seq![header, record_type.len() as u8, payload.len() as u8] + record_type + payload
}

/// Bluetooth LE OOB data that lists one 128-bit service UUID (given
/// big-endian, carried little-endian).
pub open spec fn ble_oob_payload(uuid: Seq<u8>) -> Seq<u8> {
    seq![0x11u8, 0x07] + uuid.reverse()
}

/// What the parser gives back of a well-formed handover: a message made of a
/// short device engagement record (MB, TNF external) and a short Bluetooth
/// LE OOB record (ME, TNF MIME) listing one service UUID yields the
/// engagement that the payload carries and exactly that UUID.
pub proof fn lemma_handover_round_trip(payload: Seq<u8>, uuid: Seq<u8>)
    requires
        0 < payload.len() < 256,
        uuid.len() == 16,
    ensures
        handover_of(
            short_record(0x94, DEVICE_ENGAGEMENT_TYPE@, payload) + short_record(
                0x52,
                BLE_OOB_TYPE@,
                ble_oob_payload(uuid),
            ),
        ) == Ok::<(Seq<u8>, Seq<u8>), NdefError>((engagement_of(payload), uuid)),
{
    let r1 = short_record(0x94, DEVICE_ENGAGEMENT_TYPE@, payload);
    let oob = ble_oob_payload(uuid);
    let r2 = short_record(0x52, BLE_OOB_TYPE@, oob);
    let m = r1 + r2;
    let n1: int = 33 + payload.len() as int;
    assert(DEVICE_ENGAGEMENT_TYPE@.len() == 30);
    assert(BLE_OOB_TYPE@.len() == 32);
    assert(oob.len() == 18);
    assert(0x94u8 & 0x10u8 != 0 && 0x94u8 & 0x08u8 == 0 && 0x94u8 & 0x07u8 == 4) by (bit_vector);
    assert(0x52u8 & 0x10u8 != 0 && 0x52u8 & 0x08u8 == 0 && 0x52u8 & 0x07u8 == 2) by (bit_vector);
    // First record.
    assert(m[0] == 0x94u8 && m[1] == 30u8 && m[2] == payload.len() as u8);
    assert(m.subrange(3, 33) =~= DEVICE_ENGAGEMENT_TYPE@);
    assert(m.subrange(33, n1) =~= payload);
    assert(record_layout(m, 0) == (RecordLayout::Record {
        tnf: 4,
        type_start: 3,
        type_len: 30,
        payload_start: 33,
        end: n1 as usize,
    }));
    // Second record.
    assert(m[n1] == 0x52u8 && m[n1 + 1] == 32u8 && m[n1 + 2] == 18u8);
    assert(m.subrange(n1 + 3, n1 + 35) =~= BLE_OOB_TYPE@);
    assert(m.subrange(n1 + 35, n1 + 53) =~= oob);
    assert(record_layout(m, n1) == (RecordLayout::Record {
        tnf: 2,
        type_start: (n1 + 3) as usize,
        type_len: 32,
        payload_start: (n1 + 35) as usize,
        end: (n1 + 53) as usize,
    }));
    assert(DEVICE_ENGAGEMENT_TYPE@ != BLE_OOB_TYPE@);
    // The UUID of the OOB data.
    assert(oob.subrange(2, 18).take(16) =~= uuid.reverse());
    assert(uuid.reverse().reverse() =~= uuid);
    assert(ble_uuid_of(oob) == Some(uuid));
    assert(m.len() == n1 + 53);
    assert(scan_records(m, n1 + 53, Some(engagement_of(payload)), Some(uuid)) == Ok::<
        (Option<Seq<u8>>, Option<Seq<u8>>),
        NdefError,
    >((Some(engagement_of(payload)), Some(uuid))));
    assert(scan_records(m, n1, Some(engagement_of(payload)), None) == Ok::<
        (Option<Seq<u8>>, Option<Seq<u8>>),
        NdefError,
    >((Some(engagement_of(payload)), Some(uuid))));
}

/// The order of the two records does not matter: a message whose short
/// Bluetooth LE OOB record (MB, TNF MIME) listing one service UUID comes
/// before a short device engagement record (ME, TNF external), as wallets
/// write a Handover Select message, yields the same engagement and UUID.
pub proof fn lemma_handover_round_trip_ble_first(payload: Seq<u8>, uuid: Seq<u8>)
    requires
        0 < payload.len() < 256,
        uuid.len() == 16,
    ensures
        handover_of(
            short_record(0x92, BLE_OOB_TYPE@, ble_oob_payload(uuid)) + short_record(
                0x54,
                DEVICE_ENGAGEMENT_TYPE@,
                payload,
            ),
        ) == Ok::<(Seq<u8>, Seq<u8>), NdefError>((engagement_of(payload), uuid)),
{
    let oob = ble_oob_payload(uuid);
    let r1 = short_record(0x92, BLE_OOB_TYPE@, oob);
    let r2 = short_record(0x54, DEVICE_ENGAGEMENT_TYPE@, payload);
    let m = r1 + r2;
    let n2: int = 53 + 33 + payload.len() as int;
    assert(DEVICE_ENGAGEMENT_TYPE@.len() == 30);
    assert(BLE_OOB_TYPE@.len() == 32);
    assert(oob.len() == 18);
    assert(0x92u8 & 0x10u8 != 0 && 0x92u8 & 0x08u8 == 0 && 0x92u8 & 0x07u8 == 2) by (bit_vector);
    assert(0x54u8 & 0x10u8 != 0 && 0x54u8 & 0x08u8 == 0 && 0x54u8 & 0x07u8 == 4) by (bit_vector);
    // First record: the OOB data.
    assert(m[0] == 0x92u8 && m[1] == 32u8 && m[2] == 18u8);
    assert(m.subrange(3, 35) =~= BLE_OOB_TYPE@);
    assert(m.subrange(35, 53) =~= oob);
    assert(record_layout(m, 0) == (RecordLayout::Record {
        tnf: 2,
        type_start: 3,
        type_len: 32,
        payload_start: 35,
        end: 53,
    }));
    // Second record: the engagement.
    assert(m[53] == 0x54u8 && m[54] == 30u8 && m[55] == payload.len() as u8);
    assert(m.subrange(56, 86) =~= DEVICE_ENGAGEMENT_TYPE@);
    assert(m.subrange(86, n2) =~= payload);
    assert(record_layout(m, 53) == (RecordLayout::Record {
        tnf: 4,
        type_start: 56,
        type_len: 30,
        payload_start: 86,
        end: n2 as usize,
    }));
    assert(DEVICE_ENGAGEMENT_TYPE@ != BLE_OOB_TYPE@);
    assert(oob.subrange(2, 18).take(16) =~= uuid.reverse());
    assert(uuid.reverse().reverse() =~= uuid);
    assert(ble_uuid_of(oob) == Some(uuid));
    assert(m.len() == n2);
    assert(scan_records(m, n2, Some(engagement_of(payload)), Some(uuid)) == Ok::<
        (Option<Seq<u8>>, Option<Seq<u8>>),
        NdefError,
    >((Some(engagement_of(payload)), Some(uuid))));
    assert(scan_records(m, 53, None, Some(uuid)) == Ok::<
        (Option<Seq<u8>>, Option<Seq<u8>>),
        NdefError,
    >((Some(engagement_of(payload)), Some(uuid))));
}

} // verus!

verus! {

/// Whether the NDEF records from `offset` are whole: complete records, one
/// after the other, the last one ending exactly at the end of the message.
pub open spec fn whole_records(ndef: Seq<u8>, offset: int) -> bool
    decreases ndef.len() - offset,
{
    if offset == ndef.len() {
        true
    } else if offset < 0 || offset > ndef.len() {
        false
    } else {
        match record_layout(ndef, offset) {
            RecordLayout::Record { end, .. } => end > offset && whole_records(ndef, end as int),
            _ => false,
        }
    }
}

/// A complete record reads the same when more bytes follow the message.
proof fn lemma_layout_extends(ndef: Seq<u8>, tail: Seq<u8>, offset: int)
    requires
        0 <= offset < ndef.len(),
        record_layout(ndef, offset) is Record,
    ensures
        record_layout(ndef + tail, offset) == record_layout(ndef, offset),
{
    let m = ndef + tail;
    assert forall|k: int| 0 <= k < ndef.len() implies m[k] == ndef[k] by {}
}

/// Fewer than three bytes after the last record make no record: the walk
/// stops there.
proof fn lemma_short_tail_truncated(ndef: Seq<u8>, tail: Seq<u8>)
    requires
        1 <= tail.len() <= 2,
    ensures
        record_layout(ndef + tail, ndef.len() as int) == RecordLayout::Truncated,
{
}

/// The walk over whole records gives the same result when at most two
/// bytes follow them.
proof fn lemma_scan_short_tail(
    ndef: Seq<u8>,
    tail: Seq<u8>,
    offset: int,
    eng: Option<Seq<u8>>,
    ble: Option<Seq<u8>>,
)
    requires
        whole_records(ndef, offset),
        tail.len() <= 2,
        ndef.len() + tail.len() <= usize::MAX,
    ensures
        scan_records(ndef + tail, offset, eng, ble) == scan_records(ndef, offset, eng, ble),
    decreases ndef.len() - offset,
{
    let m = ndef + tail;
    if offset == ndef.len() {
        if tail.len() > 0 {
            lemma_short_tail_truncated(ndef, tail);
        }
    } else {
        lemma_layout_extends(ndef, tail, offset);
        match record_layout(ndef, offset) {
            RecordLayout::Record { tnf, type_start, type_len, payload_start, end } => {
                assert(m.subrange(type_start as int, type_start + type_len) =~= ndef.subrange(
                    type_start as int,
                    type_start + type_len,
                ));
                assert(m.subrange(payload_start as int, end as int) =~= ndef.subrange(
                    payload_start as int,
                    end as int,
                ));
                let record_type = ndef.subrange(type_start as int, type_start + type_len);
                let payload = ndef.subrange(payload_start as int, end as int);
                let eng2 = if tnf == TNF_EXTERNAL && record_type == DEVICE_ENGAGEMENT_TYPE@
                    && payload.len() > 0 {
                    Some(engagement_of(payload))
                } else {
                    eng
                };
                let ble2 = if tnf == TNF_MIME && record_type == BLE_OOB_TYPE@ {
                    ble_uuid_of(payload)
                } else {
                    ble
                };
                lemma_scan_short_tail(ndef, tail, end as int, eng2, ble2);
            },
            _ => {},
        }
    }
}

/// An NDEF message made of whole records is read the same when at most two
/// bytes follow its last record: a header cut short by the end of the
/// message ends the walk, it is no error.
pub proof fn lemma_trailing_bytes_ignored(ndef: Seq<u8>, tail: Seq<u8>)
    requires
        whole_records(ndef, 0),
        tail.len() <= 2,
        ndef.len() + tail.len() <= usize::MAX,
    ensures
        handover_of(ndef + tail) == handover_of(ndef),
{
    lemma_scan_short_tail(ndef, tail, 0, None, None);
}


/// The type of the whole record `r` (one record that ends exactly at its
/// end) is neither the device engagement type nor the Bluetooth LE OOB type.
pub open spec fn other_kind_record(r: Seq<u8>) -> bool {
    match record_layout(r, 0) {
        RecordLayout::Record { type_start, type_len, end, .. } => {
            let t = r.subrange(type_start as int, type_start + type_len);
            &&& r.len() > 0
            &&& end == r.len()
            &&& t != DEVICE_ENGAGEMENT_TYPE@
            &&& t != BLE_OOB_TYPE@
        },
        _ => false,
    }
}

/// A record that follows a message reads as it reads on its own, shifted
/// by the length of the message.
proof fn lemma_layout_shift(m: Seq<u8>, r: Seq<u8>)
    requires
        r.len() > 0,
        m.len() + r.len() <= usize::MAX,
        record_layout(r, 0) is Record,
    ensures
        ({
            let n = m.len() as int;
            match (record_layout(m + r, n), record_layout(r, 0)) {
                (
                    RecordLayout::Record { tnf: t1, type_start: s1, type_len: l1, payload_start: p1, end: e1 },
                    RecordLayout::Record { tnf: t2, type_start: s2, type_len: l2, payload_start: p2, end: e2 },
                ) => t1 == t2 && s1 == s2 + n && l1 == l2 && p1 == p2 + n && e1 == e2 + n,
                _ => false,
            }
        }),
{
    let x = m + r;
    let n = m.len() as int;
    assert forall|k: int| 0 <= k < r.len() implies x[n + k] == r[k] by {}
    assert(x[n] == r[0]);
    assert(x.len() == n + r.len());
    if r.len() > 1 { assert(x[n + 1] == r[1]); }
    if r.len() > 2 { assert(x[n + 2] == r[2]); }
    if r.len() > 3 { assert(x[n + 3] == r[3]); }
    if r.len() > 4 { assert(x[n + 4] == r[4]); }
    if r.len() > 5 { assert(x[n + 5] == r[5]); }
    if r.len() > 6 { assert(x[n + 6] == r[6]); }
}

/// The walk over whole records gives the same result when one whole record
/// of another kind follows them.
proof fn lemma_scan_other_record(
    m: Seq<u8>,
    r: Seq<u8>,
    offset: int,
    eng: Option<Seq<u8>>,
    ble: Option<Seq<u8>>,
)
    requires
        whole_records(m, offset),
        other_kind_record(r),
        m.len() + r.len() <= usize::MAX,
    ensures
        scan_records(m + r, offset, eng, ble) == scan_records(m, offset, eng, ble),
    decreases m.len() - offset,
{
    let x = m + r;
    let n = m.len() as int;
    if offset == n {
        lemma_layout_shift(m, r);
        match record_layout(r, 0) {
            RecordLayout::Record { tnf, type_start, type_len, payload_start, end } => {
                assert(x.subrange(type_start + n, type_start + n + type_len) =~= r.subrange(
                    type_start as int,
                    type_start + type_len,
                ));
                assert(x.len() == n + end);
                assert(scan_records(x, x.len() as int, eng, ble) == Ok::<
                    (Option<Seq<u8>>, Option<Seq<u8>>),
                    NdefError,
                >((eng, ble)));
                assert(end > 0);
            },
            _ => {},
        }
    } else {
        lemma_layout_extends(m, r, offset);
        match record_layout(m, offset) {
            RecordLayout::Record { tnf, type_start, type_len, payload_start, end } => {
                assert(x.subrange(type_start as int, type_start + type_len) =~= m.subrange(
                    type_start as int,
                    type_start + type_len,
                ));
                assert(x.subrange(payload_start as int, end as int) =~= m.subrange(
                    payload_start as int,
                    end as int,
                ));
                let record_type = m.subrange(type_start as int, type_start + type_len);
                let payload = m.subrange(payload_start as int, end as int);
                let eng2 = if tnf == TNF_EXTERNAL && record_type == DEVICE_ENGAGEMENT_TYPE@
                    && payload.len() > 0 {
                    Some(engagement_of(payload))
                } else {
                    eng
                };
                let ble2 = if tnf == TNF_MIME && record_type == BLE_OOB_TYPE@ {
                    ble_uuid_of(payload)
                } else {
                    ble
                };
                lemma_scan_other_record(m, r, end as int, eng2, ble2);
            },
            _ => {},
        }
    }
}

/// Only the device engagement record and the Bluetooth LE OOB record carry
/// the handover: appending a whole record of any other type (another
/// carrier, such as Wi-Fi Aware) to a message of whole records reads the
/// same.
pub proof fn lemma_other_records_ignored(m: Seq<u8>, r: Seq<u8>)
    requires
        whole_records(m, 0),
        other_kind_record(r),
        m.len() + r.len() <= usize::MAX,
    ensures
        handover_of(m + r) == handover_of(m),
{
    lemma_scan_other_record(m, r, 0, None, None);
}

} // verus!
