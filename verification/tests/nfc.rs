use eudi_access::transport::ndef::NdefError;
use eudi_access::transport::nfc::{ensure_sw_ok, NfcError, NfcProgress, NfcState};
use eudi_access::transport::Engagement;

const DE_TYPE: &[u8] = b"iso.org:18013:deviceengagement";
const BLE_TYPE: &[u8] = b"application/vnd.bluetooth.le.oob";
const UUID_BE: [u8; 16] = [
    0x12, 0x34, 0x56, 0x78, 0x9a, 0xbc, 0xde, 0xf0, 0x11, 0x22, 0x33, 0x44, 0x55, 0x66, 0x77, 0x88,
];

fn ndef_message(de_payload: &[u8]) -> Vec<u8> {
    let mut m = vec![0x84, DE_TYPE.len() as u8];
    m.extend_from_slice(&(de_payload.len() as u32).to_be_bytes());
    m.extend_from_slice(DE_TYPE);
    m.extend_from_slice(de_payload);
    let mut ble = vec![0x11, 0x07];
    let mut le = UUID_BE.to_vec();
    le.reverse();
    ble.extend(le);
    m.extend_from_slice(&[0x52, BLE_TYPE.len() as u8, ble.len() as u8]);
    m.extend_from_slice(BLE_TYPE);
    m.extend(ble);
    m
}

/// A card that serves `file` (two length bytes, then the NDEF message),
/// reading at most `max_read` bytes per READ BINARY.
struct Card {
    file: Vec<u8>,
    max_read: usize,
    sent: Vec<Vec<u8>>,
}

impl Card {
    fn answer(&mut self, apdu: &[u8]) -> Vec<u8> {
        self.sent.push(apdu.to_vec());
        if apdu[1] == 0xB0 {
            let offset = ((apdu[2] as usize) << 8) | apdu[3] as usize;
            let len = (apdu[4] as usize).min(self.max_read);
            let end = (offset + len).min(self.file.len());
            let mut r = self.file[offset.min(end)..end].to_vec();
            r.extend_from_slice(&[0x90, 0x00]);
            r
        } else if apdu[3] == 0x0C && apdu[6] == 0x03 {
            vec![0x6A, 0x82] // the Capability Container select may fail
        } else {
            vec![0x90, 0x00]
        }
    }
}

fn run(card: &mut Card) -> Result<Engagement, NfcError> {
    let mut state = NfcState::new();
    for _ in 0..1000 {
        let apdu = state.command().expect("a command while the exchange runs");
        let resp = card.answer(&apdu);
        let (next, progress) = state.on_response(&resp);
        match progress? {
            NfcProgress::Continue => state = next,
            NfcProgress::Engaged(e) => {
                assert!(next.command().is_none());
                return Ok(e);
            }
        }
    }
    panic!("exchange did not end");
}

fn file_of(ndef: &[u8]) -> Vec<u8> {
    let mut f = (ndef.len() as u16).to_be_bytes().to_vec();
    f.extend_from_slice(ndef);
    f
}

#[test]
fn reads_a_short_handover() {
    let ndef = ndef_message(&[0x01, 0xa1, 0x00, 0x01]);
    let mut card = Card { file: file_of(&ndef), max_read: 255, sent: vec![] };
    let e = run(&mut card).unwrap();
    assert_eq!(e.bytes, vec![0xa1, 0x00, 0x01]);
    assert_eq!(e.ble_service_uuid, UUID_BE);
    assert_eq!(
        card.sent[0],
        vec![0x00, 0xA4, 0x04, 0x00, 0x07, 0xD2, 0x76, 0x00, 0x00, 0x85, 0x01, 0x01, 0x00]
    );
    assert_eq!(card.sent[1], vec![0x00, 0xA4, 0x00, 0x0C, 0x02, 0xE1, 0x03]);
    assert_eq!(card.sent[2], vec![0x00, 0xA4, 0x00, 0x0C, 0x02, 0xE1, 0x04]);
    assert_eq!(card.sent[3], vec![0x00, 0xB0, 0x00, 0x00, 0x02]);
    assert_eq!(card.sent[4], vec![0x00, 0xB0, 0x00, 0x02, ndef.len() as u8]);
    assert_eq!(card.sent.len(), 5);
}

#[test]
fn reads_a_long_handover_in_chunks() {
    let payload: Vec<u8> = (0..600u32).map(|i| (i % 200) as u8 + 2).collect();
    let ndef = ndef_message(&payload);
    let mut card = Card { file: file_of(&ndef), max_read: 255, sent: vec![] };
    let e = run(&mut card).unwrap();
    assert_eq!(e.bytes, payload);
    let reads: Vec<&Vec<u8>> = card.sent.iter().skip(4).collect();
    let n = ndef.len();
    assert_eq!(reads.len(), (n + 254) / 255);
    assert_eq!(*reads[0], vec![0x00, 0xB0, 0x00, 0x02, 0xFF]);
    assert_eq!(*reads[1], vec![0x00, 0xB0, 0x01, 0x01, 0xFF]);
    assert_eq!(*reads[2], vec![0x00, 0xB0, 0x02, 0x00, (n - 510) as u8]);
}

#[test]
fn short_reads_advance_by_what_was_asked() {
    let ndef = ndef_message(&[0xa1, 0x00]);
    let mut card = Card { file: file_of(&ndef), max_read: 10, sent: vec![] };
    // The offset advances by what was asked for, not by what came back, so a
    // card that answers short runs the offset past 16 bits.
    assert_eq!(run(&mut card).err(), Some(NfcError::OffsetOverflow));
    let n = ndef.len();
    assert_eq!(card.sent[4], vec![0x00, 0xB0, 0x00, 0x02, n as u8]);
    assert_eq!(card.sent[5], vec![0x00, 0xB0, 0x00, (2 + n) as u8, (n - 10) as u8]);
}

#[test]
fn zero_length_file_has_no_engagement() {
    let mut card = Card { file: vec![0x00, 0x00], max_read: 255, sent: vec![] };
    assert_eq!(run(&mut card).err(), Some(NfcError::Ndef(NdefError::EngagementMissing)));
    assert_eq!(card.sent.len(), 4);
}

#[test]
fn failed_select_is_an_apdu_error() {
    let s = NfcState::new();
    let (s, r) = s.on_response(&[0x6A, 0x82]);
    assert_eq!(r.err(), Some(NfcError::ApduStatus { sw1: 0x6A, sw2: 0x82 }));
    assert!(s.command().is_none());
    let (_, r) = s.on_response(&[0x90, 0x00]);
    assert_eq!(r.err(), Some(NfcError::Closed));
}

#[test]
fn short_response_is_an_error() {
    let (_, r) = NfcState::new().on_response(&[0x90]);
    assert_eq!(r.err(), Some(NfcError::ShortApdu));
}

#[test]
fn read_length_status_bytes_alone_give_the_length() {
    // A bare 90 00 to READ BINARY of the length is read as length 0x9000.
    let mut s = NfcState::new();
    for resp in [[0x90u8, 0x00], [0x6A, 0x82], [0x90, 0x00], [0x90, 0x00]] {
        let (next, r) = s.on_response(&resp);
        assert!(matches!(r, Ok(NfcProgress::Continue)));
        s = next;
    }
    assert_eq!(s.command().unwrap(), vec![0x00, 0xB0, 0x00, 0x02, 0xFF]);
}

#[test]
fn offset_past_sixteen_bits_is_an_error() {
    let mut s = NfcState::new();
    for resp in [[0x90u8, 0x00], [0x90, 0x00], [0x90, 0x00]] {
        s = s.on_response(&resp).0;
    }
    s = s.on_response(&[0xFF, 0xFF, 0x90, 0x00]).0;
    // Each read returns nothing, so the offset climbs by 255 per step.
    let mut steps = 0;
    loop {
        let (next, r) = s.on_response(&[0x90, 0x00]);
        steps += 1;
        match r {
            Ok(NfcProgress::Continue) => s = next,
            Err(e) => {
                assert_eq!(e, NfcError::OffsetOverflow);
                break;
            }
            Ok(NfcProgress::Engaged(_)) => panic!("no data was read"),
        }
    }
    assert_eq!(steps, (0xFFFF - 2) / 255 + 1);
}

#[test]
fn status_word_check() {
    assert_eq!(ensure_sw_ok(&[0x90, 0x00]), Ok(()));
    assert_eq!(ensure_sw_ok(&[0x01, 0x02, 0x90, 0x00]), Ok(()));
    assert_eq!(ensure_sw_ok(&[0x00]), Err(NfcError::ShortApdu));
    assert_eq!(ensure_sw_ok(&[]), Err(NfcError::ShortApdu));
    assert_eq!(ensure_sw_ok(&[0x90, 0x00, 0x6A, 0x82]), Err(NfcError::ApduStatus { sw1: 0x6A, sw2: 0x82 }));
}
