//! Reading the NDEF handover from a phone through a PC/SC NFC reader: the
//! ISO 7816-4 APDU exchange as a state machine. The caller transmits each
//! command that the state gives, and hands the card's response back.

use vstd::prelude::*;
use crate::bytes::extend_range;
use crate::transport::Engagement;
use crate::text::push_char;
use crate::transport::ndef::{handover_of, ndef_error_message, parse_handover_ndef, NdefError};

verus! {

/// Standard NFC Forum NDEF Application AID.
pub const NDEF_AID: [u8; 7] = [0xD2, 0x76, 0x00, 0x00, 0x85, 0x01, 0x01];

/// The largest number of bytes one READ BINARY asks for.
pub const MAX_READ_CHUNK: usize = 0xFF;

/// The largest file offset that READ BINARY can address (P1-P2).
pub const MAX_FILE_OFFSET: usize = 0xFFFF;

/// Why the NFC exchange failed.
#[derive(Debug, Clone, Copy, PartialEq, Eq, Structural)]
pub enum NfcError {
    /// A response shorter than its two status bytes.
    ShortApdu,
    /// A response whose status word is not 90 00.
    ApduStatus { sw1: u8, sw2: u8 },
    /// The next READ BINARY offset would not fit the 16-bit P1-P2 field.
    OffsetOverflow,
    /// The NDEF file did not hold a usable handover.
    Ndef(NdefError),
    /// The exchange is over: it has already produced an engagement or failed.
    Closed,
}

/// An upper-case hexadecimal digit.
pub open spec fn upper_hex_digit(v: int) -> char {
    if v < 10 {
        (48 + v) as char
    } else {
        (55 + v) as char
    }
}

/// A byte as two upper-case hexadecimal digits.
pub open spec fn upper_hex(b: u8) -> Seq<char> {
    seq![upper_hex_digit(b as int / 16), upper_hex_digit(b as int % 16)]
}

/// The text that reports an NFC error: the status word of a failed APDU in
/// upper-case hexadecimal.
pub open spec fn nfc_error_message(e: NfcError) -> Seq<char> {
    match e {
        NfcError::ShortApdu => "short APDU response"@,
        NfcError::ApduStatus { sw1, sw2 } => "APDU error SW="@ + upper_hex(sw1) + upper_hex(sw2),
        NfcError::OffsetOverflow => "NDEF file offset out of range"@,
        NfcError::Ndef(n) => ndef_error_message(n),
        NfcError::Closed => "NFC exchange already finished"@,
    }
}

/// Appends a byte as two upper-case hexadecimal digits.
fn push_upper_hex(s: &mut String, b: u8)
    ensures
        final(s)@ == old(s)@ + upper_hex(b),
{
    let hi = b / 16;
    let lo = b % 16;
    let c_hi = if hi < 10 { (hi + 48) as char } else { (hi + 55) as char };
    let c_lo = if lo < 10 { (lo + 48) as char } else { (lo + 55) as char };
    push_char(s, c_hi);
    push_char(s, c_lo);
    assert(final(s)@ =~= old(s)@ + upper_hex(b));
}

impl NfcError {
    /// The text that reports this error.
    pub fn message(&self) -> (r: String)
        ensures
            r@ == nfc_error_message(*self),
    {
        match self {
            NfcError::ShortApdu => String::from_str("short APDU response"),
            NfcError::ApduStatus { sw1, sw2 } => {
                let mut s = String::from_str("APDU error SW=");
                push_upper_hex(&mut s, *sw1);
                push_upper_hex(&mut s, *sw2);
                s
            },
            NfcError::OffsetOverflow => String::from_str("NDEF file offset out of range"),
            NfcError::Ndef(n) => n.message(),
            NfcError::Closed => String::from_str("NFC exchange already finished"),
        }
    }
}

/// What an APDU response's status word says: success is 90 00.
pub open spec fn status_of(resp: Seq<u8>) -> Result<(), NfcError> {
    if resp.len() < 2 {
        Err(NfcError::ShortApdu)
    } else if resp[resp.len() - 2] == 0x90 && resp[resp.len() - 1] == 0x00 {
        Ok(())
    } else {
        Err(NfcError::ApduStatus { sw1: resp[resp.len() - 2], sw2: resp[resp.len() - 1] })
    }
}

/// Checks that an APDU response ends in the status word 90 00.
pub fn ensure_sw_ok(resp: &[u8]) -> (r: Result<(), NfcError>)
    ensures
        r == status_of(resp@),
{
    let n = resp.len();
    if n < 2 {
        return Err(NfcError::ShortApdu);
    }
    let sw1 = resp[n - 2];
    let sw2 = resp[n - 1];
    if sw1 != 0x90 || sw2 != 0x00 {
        return Err(NfcError::ApduStatus { sw1, sw2 });
    }
    Ok(())
}

/// Where the exchange stands.
pub enum NfcState {
    /// SELECT the NDEF application by its AID.
    SelectApplication,
    /// SELECT the Capability Container file (E103); many Android HCE
    /// implementations require this before E104.
    SelectCapabilityContainer,
    /// SELECT the NDEF file (E104).
    SelectNdefFile,
    /// READ BINARY of the two-byte NDEF length.
    ReadLength,
    /// READ BINARY of the NDEF payload in chunks: `data` holds what was read
    /// so far and `offset` is the file offset of the next chunk.
    ReadPayload { ndef_len: usize, offset: usize, data: Vec<u8> },
    /// The engagement was read.
    Engaged,
    /// The exchange failed.
    Failed,
}

/// The mathematical view of an exchange state.
pub enum NfcStateView {
    SelectApplication,
    SelectCapabilityContainer,
    SelectNdefFile,
    ReadLength,
    ReadPayload { ndef_len: nat, offset: nat, data: Seq<u8> },
    Engaged,
    Failed,
}

impl View for NfcState {
    type V = NfcStateView;

    open spec fn view(&self) -> NfcStateView {
        match self {
            NfcState::SelectApplication => NfcStateView::SelectApplication,
            NfcState::SelectCapabilityContainer => NfcStateView::SelectCapabilityContainer,
            NfcState::SelectNdefFile => NfcStateView::SelectNdefFile,
            NfcState::ReadLength => NfcStateView::ReadLength,
            NfcState::ReadPayload { ndef_len, offset, data } => NfcStateView::ReadPayload {
                ndef_len: *ndef_len as nat,
                offset: *offset as nat,
                data: data@,
            },
            NfcState::Engaged => NfcStateView::Engaged,
            NfcState::Failed => NfcStateView::Failed,
        }
    }
}

/// While the payload is read, the data read so far is shorter than the
/// NDEF length, which fits 16 bits, and the next offset is addressable.
pub open spec fn state_wf(s: NfcStateView) -> bool {
    match s {
        NfcStateView::ReadPayload { ndef_len, offset, data } => {
            &&& data.len() < ndef_len <= 0xFFFF
            &&& offset <= MAX_FILE_OFFSET
        },
        _ => true,
    }
}

/// The number of bytes the next READ BINARY asks for.
pub open spec fn chunk_len(ndef_len: nat, read: nat) -> nat {
    let remaining = ndef_len - read;
    if remaining < MAX_READ_CHUNK {
        remaining as nat
    } else {
        MAX_READ_CHUNK as nat
    }
}

/// SELECT by AID of the NDEF application.
pub open spec fn select_application_apdu() -> Seq<u8> {
    seq![0x00u8, 0xA4, 0x04, 0x00, 7] + NDEF_AID@ + seq![0x00u8]
}

/// SELECT of the Capability Container file E103.
pub open spec fn select_cc_apdu() -> Seq<u8> {
    seq![0x00u8, 0xA4, 0x00, 0x0C, 0x02, 0xE1, 0x03]
}

/// SELECT of the NDEF file E104.
pub open spec fn select_ndef_apdu() -> Seq<u8> {
    seq![0x00u8, 0xA4, 0x00, 0x0C, 0x02, 0xE1, 0x04]
}

/// READ BINARY of the first two bytes of the file: the NDEF length.
pub open spec fn read_length_apdu() -> Seq<u8> {
    seq![0x00u8, 0xB0, 0x00, 0x00, 0x02]
}

/// READ BINARY of `len` bytes at `offset`.
pub open spec fn read_binary_apdu(offset: nat, len: nat) -> Seq<u8> {
    seq![0x00u8, 0xB0, (offset / 256) as u8, (offset % 256) as u8, len as u8]
}

/// The command that the card is sent in state `s`, if any.
pub open spec fn command_of(s: NfcStateView) -> Option<Seq<u8>> {
    match s {
        NfcStateView::SelectApplication => Some(select_application_apdu()),
        NfcStateView::SelectCapabilityContainer => Some(select_cc_apdu()),
        NfcStateView::SelectNdefFile => Some(select_ndef_apdu()),
        NfcStateView::ReadLength => Some(read_length_apdu()),
        NfcStateView::ReadPayload { ndef_len, offset, data } => Some(
            read_binary_apdu(offset, chunk_len(ndef_len, data.len())),
        ),
        NfcStateView::Engaged => None,
        NfcStateView::Failed => None,
    }
}

/// What one step yields: nothing yet, or the engagement (its CBOR bytes and
/// the big-endian BLE service UUID).
pub enum NfcEvent {
    Continue,
    Engaged(Seq<u8>, Seq<u8>),
}

/// The outcome once the whole NDEF file is read.
pub open spec fn finish(ndef: Seq<u8>) -> (NfcStateView, Result<NfcEvent, NfcError>) {
    match handover_of(ndef) {
        Ok((e, u)) => (NfcStateView::Engaged, Ok(NfcEvent::Engaged(e, u))),
        Err(x) => (NfcStateView::Failed, Err(NfcError::Ndef(x))),
    }
}

/// The next state, and what the step yields, when the card answers `resp`
/// in state `s`. Every response but the one to SELECT of the Capability
/// Container must carry the status word 90 00.
pub open spec fn step_of(s: NfcStateView, resp: Seq<u8>) -> (NfcStateView, Result<NfcEvent, NfcError>) {
    match s {
        NfcStateView::SelectApplication => match status_of(resp) {
            Ok(()) => (NfcStateView::SelectCapabilityContainer, Ok(NfcEvent::Continue)),
            Err(e) => (NfcStateView::Failed, Err(e)),
        },
        NfcStateView::SelectCapabilityContainer => (
            NfcStateView::SelectNdefFile,
            Ok(NfcEvent::Continue),
        ),
        NfcStateView::SelectNdefFile => match status_of(resp) {
            Ok(()) => (NfcStateView::ReadLength, Ok(NfcEvent::Continue)),
            Err(e) => (NfcStateView::Failed, Err(e)),
        },
        NfcStateView::ReadLength => match status_of(resp) {
            Ok(()) => {
                let ndef_len = resp[0] * 256 + resp[1];
                if ndef_len == 0 {
                    finish(Seq::empty())
                } else {
                    (
                        NfcStateView::ReadPayload {
                            ndef_len: ndef_len as nat,
                            offset: 2,
                            data: Seq::empty(),
                        },
                        Ok(NfcEvent::Continue),
                    )
                }
            },
            Err(e) => (NfcStateView::Failed, Err(e)),
        },
        NfcStateView::ReadPayload { ndef_len, offset, data } => match status_of(resp) {
            Ok(()) => {
                let data2 = data + resp.subrange(0, resp.len() - 2);
                let offset2 = offset + chunk_len(ndef_len, data.len());
                if offset2 > MAX_FILE_OFFSET {
                    (NfcStateView::Failed, Err(NfcError::OffsetOverflow))
                } else if data2.len() >= ndef_len {
                    finish(data2)
                } else {
                    (
                        NfcStateView::ReadPayload { ndef_len, offset: offset2, data: data2 },
                        Ok(NfcEvent::Continue),
                    )
                }
            },
            Err(e) => (NfcStateView::Failed, Err(e)),
        },
        NfcStateView::Engaged => (NfcStateView::Engaged, Err(NfcError::Closed)),
        NfcStateView::Failed => (NfcStateView::Failed, Err(NfcError::Closed)),
    }
}

/// What one exchange step yields.
pub enum NfcProgress {
    /// Send the next command.
    Continue,
    /// The engagement was read from the NDEF handover.
    Engaged(Engagement),
}

/// The view of a step's outcome.
pub open spec fn progress_view(r: Result<NfcProgress, NfcError>) -> Result<NfcEvent, NfcError> {
    match r {
        Ok(NfcProgress::Continue) => Ok(NfcEvent::Continue),
        Ok(NfcProgress::Engaged(e)) => Ok(NfcEvent::Engaged(e.bytes@, e.ble_service_uuid@)),
        Err(x) => Err(x),
    }
}

/// Parses the complete NDEF file.
fn finish_exec(ndef: Vec<u8>) -> (r: (NfcState, Result<NfcProgress, NfcError>))
    ensures
        (r.0@, progress_view(r.1)) == finish(ndef@),
        state_wf(r.0@),
{
    match parse_handover_ndef(ndef.as_slice()) {
        Ok((bytes, ble_service_uuid)) => (
            NfcState::Engaged,
            Ok(NfcProgress::Engaged(Engagement { bytes, ble_service_uuid })),
        ),
        Err(x) => (NfcState::Failed, Err(NfcError::Ndef(x))),
    }
}

impl NfcState {
    /// The state in which the exchange starts.
    pub fn new() -> (s: NfcState)
        ensures
            s@ == NfcStateView::SelectApplication,
    {
        NfcState::SelectApplication
    }

    /// Whether the exchange is still under way.
    pub open spec fn wf(&self) -> bool {
        state_wf(self@)
    }

    /// The APDU to transmit next, or `None` once the exchange is over.
    pub fn command(&self) -> (c: Option<Vec<u8>>)
        requires
            self.wf(),
        ensures
            match c {
                Some(v) => command_of(self@) == Some(v@),
                None => command_of(self@) is None,
            },
    {
        match self {
            NfcState::SelectApplication => {
                let mut v: Vec<u8> = vec![0x00u8, 0xA4, 0x04, 0x00, 7];
                let mut i: usize = 0;
                while i < 7
                    invariant
                        i <= 7,
                        v@ == seq![0x00u8, 0xA4, 0x04, 0x00, 7] + NDEF_AID@.take(i as int),
                    decreases 7 - i,
                {
                    v.push(NDEF_AID[i]);
                    i = i + 1;
                    assert(v@ =~= seq![0x00u8, 0xA4, 0x04, 0x00, 7] + NDEF_AID@.take(i as int));
                }
                v.push(0x00);
                assert(NDEF_AID@.take(7) =~= NDEF_AID@);
                assert(v@ =~= select_application_apdu());
                Some(v)
            },
            NfcState::SelectCapabilityContainer => {
                let v: Vec<u8> = vec![0x00u8, 0xA4, 0x00, 0x0C, 0x02, 0xE1, 0x03];
                assert(v@ =~= select_cc_apdu());
                Some(v)
            },
            NfcState::SelectNdefFile => {
                let v: Vec<u8> = vec![0x00u8, 0xA4, 0x00, 0x0C, 0x02, 0xE1, 0x04];
                assert(v@ =~= select_ndef_apdu());
                Some(v)
            },
            NfcState::ReadLength => {
                let v: Vec<u8> = vec![0x00u8, 0xB0, 0x00, 0x00, 0x02];
                assert(v@ =~= read_length_apdu());
                Some(v)
            },
            NfcState::ReadPayload { ndef_len, offset, data } => {
                let remaining = *ndef_len - data.len();
                let chunk: u8 = if remaining < MAX_READ_CHUNK {
                    remaining as u8
                } else {
                    MAX_READ_CHUNK as u8
                };
                let v: Vec<u8> = vec![0x00u8, 0xB0, (*offset / 256) as u8, (*offset % 256) as u8, chunk];
                assert(v@ =~= read_binary_apdu(*offset as nat, chunk_len(*ndef_len as nat, data@.len())));
                Some(v)
            },
            NfcState::Engaged => None,
            NfcState::Failed => None,
        }
    }

    /// Takes the card's response to the last command: the next state, and
    /// either the engagement, a request to continue, or why it failed.
    pub fn on_response(self, resp: &[u8]) -> (r: (NfcState, Result<NfcProgress, NfcError>))
        requires
            self.wf(),
        ensures
            (r.0@, progress_view(r.1)) == step_of(self@, resp@),
            r.0.wf(),
    {
        match self {
            NfcState::SelectApplication => match ensure_sw_ok(resp) {
                Ok(()) => (NfcState::SelectCapabilityContainer, Ok(NfcProgress::Continue)),
                Err(e) => (NfcState::Failed, Err(e)),
            },
            NfcState::SelectCapabilityContainer => (NfcState::SelectNdefFile, Ok(NfcProgress::Continue)),
            NfcState::SelectNdefFile => match ensure_sw_ok(resp) {
                Ok(()) => (NfcState::ReadLength, Ok(NfcProgress::Continue)),
                Err(e) => (NfcState::Failed, Err(e)),
            },
            NfcState::ReadLength => match ensure_sw_ok(resp) {
                Ok(()) => {
                    let ndef_len = (resp[0] as usize) * 256 + (resp[1] as usize);
                    if ndef_len == 0 {
                        finish_exec(Vec::new())
                    } else {
                        (
                            NfcState::ReadPayload { ndef_len, offset: 2, data: Vec::new() },
                            Ok(NfcProgress::Continue),
                        )
                    }
                },
                Err(e) => (NfcState::Failed, Err(e)),
            },
            NfcState::ReadPayload { ndef_len, offset, data } => match ensure_sw_ok(resp) {
                Ok(()) => {
                    let remaining = ndef_len - data.len();
                    let chunk = if remaining < MAX_READ_CHUNK {
                        remaining
                    } else {
                        MAX_READ_CHUNK
                    };
                    let mut data = data;
                    extend_range(&mut data, resp, 0, resp.len() - 2);
                    if chunk > MAX_FILE_OFFSET - offset {
                        return (NfcState::Failed, Err(NfcError::OffsetOverflow));
                    }
                    let offset = offset + chunk;
                    if data.len() >= ndef_len {
                        finish_exec(data)
                    } else {
                        (NfcState::ReadPayload { ndef_len, offset, data }, Ok(NfcProgress::Continue))
                    }
                },
                Err(e) => (NfcState::Failed, Err(e)),
            },
            NfcState::Engaged => (NfcState::Engaged, Err(NfcError::Closed)),
            NfcState::Failed => (NfcState::Failed, Err(NfcError::Closed)),
        }
    }
}

/// The NDEF length that the first two bytes of an NDEF file give.
pub open spec fn ndef_len_of(file: Seq<u8>) -> nat {
    (file[0] * 256 + file[1]) as nat
}

/// What a card that serves the NDEF file `file` answers in state `s`: the
/// requested bytes of the file with status 90 00 to READ BINARY, and 90 00
/// alone to every SELECT.
pub open spec fn file_answer(file: Seq<u8>, s: NfcStateView) -> Seq<u8> {
    match s {
        NfcStateView::ReadLength => file.subrange(0, 2) + seq![0x90u8, 0x00],
        NfcStateView::ReadPayload { ndef_len, offset, data } => file.subrange(
            offset as int,
            offset as int + chunk_len(ndef_len, data.len()),
        ) + seq![0x90u8, 0x00],
        _ => seq![0x90u8, 0x00],
    }
}

/// Runs the exchange against a card serving `file`: one step, then up to
/// `fuel` more while the exchange continues.
pub open spec fn run_with_file(s: NfcStateView, file: Seq<u8>, fuel: nat) -> (NfcStateView, Result<
    NfcEvent,
    NfcError,
>)
    decreases fuel,
{
    let (s2, r) = step_of(s, file_answer(file, s));
    if fuel == 0 || r != Ok::<NfcEvent, NfcError>(NfcEvent::Continue) {
        (s2, r)
    } else {
        run_with_file(s2, file, (fuel - 1) as nat)
    }
}

/// The number of READ BINARY commands that fetch an NDEF message of `len`
/// bytes.
pub open spec fn payload_reads(len: nat) -> nat {
    ((len + 254) / 255) as nat
}

/// While reading the payload from a card serving `file`, with the first `d`
/// bytes of the message read, the remaining reads end with the whole
/// message parsed.
proof fn lemma_read_payload(file: Seq<u8>, ndef_len: nat, d: nat, fuel: nat)
    requires
        d < ndef_len,
        2 + ndef_len <= file.len(),
        2 + ndef_len <= MAX_FILE_OFFSET,
        fuel + 1 >= payload_reads((ndef_len - d) as nat),
    ensures
        run_with_file(
            NfcStateView::ReadPayload {
                ndef_len,
                offset: 2 + d,
                data: file.subrange(2, 2 + d as int),
            },
            file,
            fuel,
        ) == finish(file.subrange(2, 2 + ndef_len as int)),
    decreases ndef_len - d,
{
    let s = NfcStateView::ReadPayload { ndef_len, offset: 2 + d, data: file.subrange(2, 2 + d as int) };
    let c = chunk_len(ndef_len, d);
    let resp = file_answer(file, s);
    assert(resp == file.subrange(2 + d as int, 2 + d + c as int) + seq![0x90u8, 0x00]);
    assert(resp.subrange(0, resp.len() - 2) =~= file.subrange(2 + d as int, 2 + d + c as int));
    let data2 = file.subrange(2, 2 + d as int) + resp.subrange(0, resp.len() - 2);
    assert(data2 =~= file.subrange(2, 2 + d + c as int));
    assert(status_of(resp) == Ok::<(), NfcError>(()));
    if d + c >= ndef_len {
        assert(d + c == ndef_len);
    } else {
        assert(c == 255);
        assert(fuel >= 1);
        lemma_read_payload(file, ndef_len, d + c, (fuel - 1) as nat);
    }
}

/// Reading gives back the file: against a card that serves an NDEF file
/// whose first two bytes give the length of the message that follows, the
/// exchange from its start reads exactly that message and yields what the
/// handover in it says, after the three SELECTs, the length read and one
/// READ BINARY per 255 bytes. The message must lie within the file and end
/// within the 16-bit offsets that READ BINARY can address.
pub proof fn lemma_exchange_reads_file(file: Seq<u8>, fuel: nat)
    requires
        file.len() >= 2,
        2 + ndef_len_of(file) <= file.len(),
        2 + ndef_len_of(file) <= MAX_FILE_OFFSET,
        fuel >= 3 + payload_reads(ndef_len_of(file)),
    ensures
        run_with_file(NfcStateView::SelectApplication, file, fuel) == finish(
            file.subrange(2, 2 + ndef_len_of(file) as int),
        ),
{
    let ok = seq![0x90u8, 0x00];
    assert(status_of(ok) == Ok::<(), NfcError>(()));
    let n = ndef_len_of(file);
    let resp = file.subrange(0, 2) + ok;
    assert(resp[0] == file[0] && resp[1] == file[1]);
    assert(status_of(resp) == Ok::<(), NfcError>(()));
    assert(file.subrange(2, 2) =~= Seq::<u8>::empty());
    if n == 0 {
        assert(file.subrange(2, 2 + n as int) =~= Seq::<u8>::empty());
    } else {
        lemma_read_payload(file, n, 0, (fuel - 4) as nat);
    }
    assert(run_with_file(NfcStateView::ReadLength, file, (fuel - 3) as nat) == finish(
        file.subrange(2, 2 + n as int),
    ));
    assert(run_with_file(NfcStateView::SelectNdefFile, file, (fuel - 2) as nat) == finish(
        file.subrange(2, 2 + n as int),
    ));
    assert(run_with_file(NfcStateView::SelectCapabilityContainer, file, (fuel - 1) as nat)
        == finish(file.subrange(2, 2 + n as int)));
}

} // verus!
