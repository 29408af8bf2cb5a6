//! The ISO 18013-5 BLE transport, reader in central client mode: finding the
//! mdoc GATT service and its characteristics, and the message framing over
//! them (§8.3.3.1.1.4: each fragment starts with 0x01 when more follow and
//! 0x00 on the last one).

use vstd::prelude::*;

verus! {

/// Payload bytes per fragment (MTU minus the header byte).
pub const CHUNK_SIZE: usize = 20;

/// Header byte of the last fragment of a message.
pub const LAST_FRAGMENT: u8 = 0x00;

/// Header byte of a fragment that more fragments follow.
pub const MORE_FRAGMENTS: u8 = 0x01;

/// Value written to the State characteristic to tell the phone that the
/// reader is ready (§8.3.3.1.1.3).
pub const STATE_READY: u8 = 0x01;

/// mdoc State characteristic, 00000001-a123-48ce-896b-4c76973373e6.
pub const MDOC_STATE_UUID: [u8; 16] = [
    0x00, 0x00, 0x00, 0x01, 0xa1, 0x23, 0x48, 0xce, 0x89, 0x6b, 0x4c, 0x76, 0x97, 0x33, 0x73, 0xe6,
];

/// mdoc Client2Server characteristic, 00000002-a123-48ce-896b-4c76973373e6.
pub const MDOC_C2S_UUID: [u8; 16] = [
    0x00, 0x00, 0x00, 0x02, 0xa1, 0x23, 0x48, 0xce, 0x89, 0x6b, 0x4c, 0x76, 0x97, 0x33, 0x73, 0xe6,
];

/// mdoc Server2Client characteristic, 00000003-a123-48ce-896b-4c76973373e6.
pub const MDOC_S2C_UUID: [u8; 16] = [
    0x00, 0x00, 0x00, 0x03, 0xa1, 0x23, 0x48, 0xce, 0x89, 0x6b, 0x4c, 0x76, 0x97, 0x33, 0x73, 0xe6,
];

/// Why the BLE transport failed.
#[derive(Debug, Clone, Copy, PartialEq, Eq, Structural)]
pub enum BleError {
    /// A notification without even its header byte.
    EmptyFrame,
    /// The notification stream ended before a message was complete.
    ChannelClosed,
    /// The mdoc service lacks the Client2Server characteristic.
    MissingClient2Server,
    /// The mdoc service lacks the Server2Client characteristic.
    MissingServer2Client,
    /// The mdoc service lacks the State characteristic.
    MissingState,
}

/// The text that reports a BLE error.
pub open spec fn ble_error_message(e: BleError) -> Seq<char> {
    match e {
        BleError::EmptyFrame => "empty BLE frame"@,
        BleError::ChannelClosed => "BLE channel closed"@,
        BleError::MissingClient2Server => "Missing Client2Server char"@,
        BleError::MissingServer2Client => "Missing Server2Client char"@,
        BleError::MissingState => "Missing State char"@,
    }
}

impl BleError {
    /// The text that reports this error.
    pub fn message(&self) -> (r: String)
        ensures
            r@ == ble_error_message(*self),
    {
        match self {
            BleError::EmptyFrame => String::from_str("empty BLE frame"),
            BleError::ChannelClosed => String::from_str("BLE channel closed"),
            BleError::MissingClient2Server => String::from_str("Missing Client2Server char"),
            BleError::MissingServer2Client => String::from_str("Missing Server2Client char"),
            BleError::MissingState => String::from_str("Missing State char"),
        }
    }
}

// ---------------------------------------------------------------------------
// Fragmentation
// ---------------------------------------------------------------------------

/// The number of fragments of a message of `len` bytes.
pub open spec fn fragment_count(len: nat) -> nat {
    ((len + 19) / 20) as nat
}

/// Fragment `i` of `frame`: a header byte, 0x00 on the last fragment and
/// 0x01 otherwise, then the `i`-th run of up to 20 bytes.
pub open spec fn fragment(frame: Seq<u8>, i: int) -> Seq<u8> {
    let start = i * 20;
    let last = (i + 1) * 20 >= frame.len();
    let end = if last { frame.len() as int } else { start + 20 };
    seq![if last { LAST_FRAGMENT } else { MORE_FRAGMENTS }] + frame.subrange(start, end)
}

/// The fragments that a message is written as, in order. An empty message
/// is written as no fragment at all.
pub open spec fn fragments(frame: Seq<u8>) -> Seq<Seq<u8>> {
    Seq::new(fragment_count(frame.len()), |i: int| fragment(frame, i))
}

/// The views of a list of byte vectors.
pub open spec fn vec_views(v: Seq<Vec<u8>>) -> Seq<Seq<u8>> {
    v.map_values(|b: Vec<u8>| b@)
}

/// Splits a message into the fragments written to Client2Server.
pub fn fragment_frame(frame: &[u8]) -> (r: Vec<Vec<u8>>)
    ensures
        vec_views(r@) == fragments(frame@),
{
    let n = frame.len();
    let mut out: Vec<Vec<u8>> = Vec::new();
    let mut start: usize = 0;
    let mut i: usize = 0;
    while start < n
        invariant
            n == frame@.len(),
            start <= n,
            start < n ==> start == i * 20,
            start < n ==> i < fragment_count(n as nat),
            start >= n ==> i == fragment_count(n as nat),
            out@.len() == i,
            forall|j: int| 0 <= j < i ==> #[trigger] out@[j]@ == fragment(frame@, j),
        decreases n - start,
    {
        let last = n - start <= CHUNK_SIZE;
        let end = if last { n } else { start + CHUNK_SIZE };
        let mut buf: Vec<u8> = Vec::new();
        buf.push(if last { LAST_FRAGMENT } else { MORE_FRAGMENTS });
        let mut k: usize = start;
        while k < end
            invariant
                start <= k <= end <= n,
                n == frame@.len(),
                buf@ == seq![if last { LAST_FRAGMENT } else { MORE_FRAGMENTS }] + frame@.subrange(
                    start as int,
                    k as int,
                ),
            decreases end - k,
        {
            buf.push(frame[k]);
            k = k + 1;
            assert(buf@ =~= seq![if last { LAST_FRAGMENT } else { MORE_FRAGMENTS }]
                + frame@.subrange(start as int, k as int));
        }
        assert(buf@ == fragment(frame@, i as int));
        out.push(buf);
        if last {
            start = n;
        } else {
            start = start + CHUNK_SIZE;
        }
        i = i + 1;
        proof {
            if start < n {
                assert(i < fragment_count(n as nat));
            }
        }
    }
    assert(vec_views(out@) =~= fragments(frame@));
    out
}

// ---------------------------------------------------------------------------
// Reassembly
// ---------------------------------------------------------------------------

/// What one notification does to the message being reassembled: an empty
/// notification is an error and drops what was gathered; otherwise its bytes
/// after the header are appended, and a 0x00 header completes the message.
pub open spec fn push_fragment(buf: Seq<u8>, chunk: Seq<u8>) -> (Seq<u8>, Result<
    Option<Seq<u8>>,
    BleError,
>) {
    if chunk.len() == 0 {
        (Seq::empty(), Err(BleError::EmptyFrame))
    } else {
        let gathered = buf + chunk.subrange(1, chunk.len() as int);
        if chunk[0] == LAST_FRAGMENT {
            (Seq::empty(), Ok(Some(gathered)))
        } else {
            (gathered, Ok(None))
        }
    }
}

/// The first message that the notifications `chunks` complete when fed in
/// order to a reassembler holding `buf`, or `None` if they complete none
/// before they run out or an error.
pub open spec fn first_message(buf: Seq<u8>, chunks: Seq<Seq<u8>>) -> Option<Seq<u8>>
    decreases chunks.len(),
{
    if chunks.len() == 0 {
        None
    } else {
        match push_fragment(buf, chunks[0]) {
            (_, Err(_)) => None,
            (_, Ok(Some(m))) => Some(m),
            (b, Ok(None)) => first_message(b, chunks.subrange(1, chunks.len() as int)),
        }
    }
}

/// Reassembles messages from Server2Client notifications.
pub struct FrameAssembler {
    buf: Vec<u8>,
}

impl View for FrameAssembler {
    type V = Seq<u8>;

    closed spec fn view(&self) -> Seq<u8> {
        self.buf@
    }
}

/// The view of what one notification yields.
pub open spec fn push_view(r: Result<Option<Vec<u8>>, BleError>) -> Result<Option<Seq<u8>>, BleError> {
    match r {
        Ok(Some(m)) => Ok(Some(m@)),
        Ok(None) => Ok(None),
        Err(e) => Err(e),
    }
}

impl FrameAssembler {
    /// A reassembler with nothing gathered.
    pub fn new() -> (a: FrameAssembler)
        ensures
            a@ == Seq::<u8>::empty(),
    {
        FrameAssembler { buf: Vec::new() }
    }

    /// Takes one notification: the complete message when its header is
    /// 0x00, `None` when more are to come, or the error of an empty one.
    pub fn push(&mut self, chunk: &[u8]) -> (r: Result<Option<Vec<u8>>, BleError>)
        ensures
            (final(self)@, push_view(r)) == push_fragment(old(self)@, chunk@),
    {
        let n = chunk.len();
        if n == 0 {
            self.buf = Vec::new();
            return Err(BleError::EmptyFrame);
        }
        let mut k: usize = 1;
        while k < n
            invariant
                1 <= k <= n,
                n == chunk@.len(),
                self.buf@ == old(self).buf@ + chunk@.subrange(1, k as int),
            decreases n - k,
        {
            self.buf.push(chunk[k]);
            k = k + 1;
            assert(self.buf@ =~= old(self).buf@ + chunk@.subrange(1, k as int));
        }
        if chunk[0] == LAST_FRAGMENT {
            let mut done: Vec<u8> = Vec::new();
            std::mem::swap(&mut done, &mut self.buf);
            Ok(Some(done))
        } else {
            Ok(None)
        }
    }
}

/// After `k` fragments of `frame` other than the last, the reassembler holds
/// the first `20 * k` bytes, and the remaining fragments complete exactly
/// `frame`.
proof fn lemma_fragments_complete(frame: Seq<u8>, k: int)
    requires
        frame.len() > 0,
        0 <= k < fragment_count(frame.len()),
    ensures
        first_message(frame.take(k * 20), fragments(frame).subrange(k, fragments(frame).len() as int))
            == Some(frame),
    decreases fragment_count(frame.len()) - k,
{
    let fs = fragments(frame);
    let rest = fs.subrange(k, fs.len() as int);
    assert(rest[0] == fragment(frame, k));
    let chunk = fragment(frame, k);
    if (k + 1) * 20 >= frame.len() {
        assert(frame.take(k * 20) + chunk.subrange(1, chunk.len() as int) =~= frame);
    } else {
        assert(k + 1 < fragment_count(frame.len()));
        assert(frame.take(k * 20) + chunk.subrange(1, chunk.len() as int) =~= frame.take(
            (k + 1) * 20,
        ));
        assert(rest.subrange(1, rest.len() as int) =~= fs.subrange(k + 1, fs.len() as int));
        lemma_fragments_complete(frame, k + 1);
    }
}

/// Framing round trip: the fragments that a non-empty message is written as
/// reassemble into exactly that message, and no earlier fragment completes
/// a message.
pub proof fn lemma_reassemble_fragments(frame: Seq<u8>)
    requires
        frame.len() > 0,
    ensures
        first_message(Seq::empty(), fragments(frame)) == Some(frame),
        forall|i: int|
            0 <= i < fragments(frame).len() - 1 ==> (#[trigger] fragments(frame)[i])[0]
                == MORE_FRAGMENTS,
        fragments(frame).last()[0] == LAST_FRAGMENT,
{
    lemma_fragments_complete(frame, 0);
    assert(frame.take(0) =~= Seq::<u8>::empty());
    assert(fragments(frame).subrange(0, fragments(frame).len() as int) =~= fragments(frame));
    assert forall|i: int| 0 <= i < fragments(frame).len() - 1 implies (
    #[trigger] fragments(frame)[i])[0] == MORE_FRAGMENTS by {
        assert((i + 1) * 20 < frame.len());
    }
}

/// Every fragment fits the 21-byte MTU and carries at least one message byte.
pub proof fn lemma_fragment_sizes(frame: Seq<u8>)
    ensures
        forall|i: int|
            0 <= i < fragments(frame).len() ==> 2 <= (#[trigger] fragments(frame)[i]).len() <= 21,
{
    assert forall|i: int| 0 <= i < fragments(frame).len() implies 2 <= (
    #[trigger] fragments(frame)[i]).len() <= 21 by {
        assert(i * 20 < frame.len());
    }
}

// ---------------------------------------------------------------------------
// Finding the mdoc service
// ---------------------------------------------------------------------------

/// The views of a list of UUIDs.
pub open spec fn uuid_views(v: Seq<[u8; 16]>) -> Seq<Seq<u8>> {
    v.map_values(|u: [u8; 16]| u@)
}

/// Whether two UUIDs are equal.
pub fn uuid_eq(a: &[u8; 16], b: &[u8; 16]) -> (r: bool)
    ensures
        r == (a@ == b@),
{
    let mut i: usize = 0;
    while i < 16
        invariant
            i <= 16,
            a@.len() == 16,
            b@.len() == 16,
            forall|j: int| 0 <= j < i ==> a@[j] == b@[j],
        decreases 16 - i,
    {
        if a[i] != b[i] {
            return false;
        }
        i = i + 1;
    }
    assert(a@ =~= b@);
    true
}

/// Whether a device whose resolved service UUIDs are `device_uuids`
/// announces the engagement's service.
pub fn advertises_service(device_uuids: &Vec<[u8; 16]>, service: &[u8; 16]) -> (r: bool)
    ensures
        r == uuid_views(device_uuids@).contains(service@),
{
    let mut i: usize = 0;
    while i < device_uuids.len()
        invariant
            i <= device_uuids@.len(),
            forall|j: int| 0 <= j < i ==> device_uuids@[j]@ != service@,
        decreases device_uuids@.len() - i,
    {
        if uuid_eq(&device_uuids[i], service) {
            assert(uuid_views(device_uuids@)[i as int] == service@);
            return true;
        }
        i = i + 1;
    }
    assert(!uuid_views(device_uuids@).contains(service@)) by {
        if uuid_views(device_uuids@).contains(service@) {
            let j = choose|j: int|
                0 <= j < uuid_views(device_uuids@).len() && uuid_views(device_uuids@)[j]
                    == service@;
            assert(device_uuids@[j]@ == service@);
        }
    }
    false
}

/// Finds the first GATT service whose UUID is `service`.
pub fn find_service(service_uuids: &Vec<[u8; 16]>, service: &[u8; 16]) -> (r: Option<usize>)
    ensures
        match r {
            Some(i) => i < service_uuids@.len() && service_uuids@[i as int]@ == service@
                && forall|j: int| 0 <= j < i ==> service_uuids@[j]@ != service@,
            None => forall|j: int| 0 <= j < service_uuids@.len() ==> service_uuids@[j]@ != service@,
        },
{
    let mut i: usize = 0;
    while i < service_uuids.len()
        invariant
            i <= service_uuids@.len(),
            forall|j: int| 0 <= j < i ==> service_uuids@[j]@ != service@,
        decreases service_uuids@.len() - i,
    {
        if uuid_eq(&service_uuids[i], service) {
            return Some(i);
        }
        i = i + 1;
    }
    None
}

/// The role of a characteristic of the mdoc service.
#[derive(Debug, Clone, Copy, PartialEq, Eq, Structural)]
pub enum CharacteristicRole {
    State,
    Client2Server,
    Server2Client,
}

/// The role that a characteristic UUID stands for, if any.
pub open spec fn role_of(u: Seq<u8>) -> Option<CharacteristicRole> {
    if u == MDOC_STATE_UUID@ {
        Some(CharacteristicRole::State)
    } else if u == MDOC_C2S_UUID@ {
        Some(CharacteristicRole::Client2Server)
    } else if u == MDOC_S2C_UUID@ {
        Some(CharacteristicRole::Server2Client)
    } else {
        None
    }
}

/// Classifies a characteristic of the mdoc service by its UUID.
pub fn characteristic_role(u: &[u8; 16]) -> (r: Option<CharacteristicRole>)
    ensures
        r == role_of(u@),
{
    if uuid_eq(u, &MDOC_STATE_UUID) {
        Some(CharacteristicRole::State)
    } else if uuid_eq(u, &MDOC_C2S_UUID) {
        Some(CharacteristicRole::Client2Server)
    } else if uuid_eq(u, &MDOC_S2C_UUID) {
        Some(CharacteristicRole::Server2Client)
    } else {
        None
    }
}

/// Indices, into the service's list of characteristics, of the three mdoc
/// characteristics.
#[derive(Debug, Clone, Copy, PartialEq, Eq, Structural)]
pub struct MdocCharacteristics {
    pub state: usize,
    pub client2server: usize,
    pub server2client: usize,
}

/// The index of the last characteristic in `v` with role `role`.
pub open spec fn last_with_role(v: Seq<Seq<u8>>, role: CharacteristicRole) -> Option<int>
    decreases v.len(),
{
    if v.len() == 0 {
        None
    } else if role_of(v.last()) == Some(role) {
        Some(v.len() - 1)
    } else {
        last_with_role(v.drop_last(), role)
    }
}

/// Which characteristics play the three mdoc roles (when a role occurs
/// twice, the later characteristic is taken), or which role is missing,
/// checked in the order Client2Server, Server2Client, State.
pub open spec fn characteristics_of(v: Seq<Seq<u8>>) -> Result<MdocCharacteristics, BleError> {
    match (
        last_with_role(v, CharacteristicRole::Client2Server),
        last_with_role(v, CharacteristicRole::Server2Client),
        last_with_role(v, CharacteristicRole::State),
    ) {
        (None, _, _) => Err(BleError::MissingClient2Server),
        (Some(_), None, _) => Err(BleError::MissingServer2Client),
        (Some(_), Some(_), None) => Err(BleError::MissingState),
        (Some(c), Some(s), Some(t)) => Ok(
            MdocCharacteristics {
                state: t as usize,
                client2server: c as usize,
                server2client: s as usize,
            },
        ),
    }
}

/// An optional index as a `usize`.
pub open spec fn as_index(o: Option<int>) -> Option<usize> {
    match o {
        Some(i) => Some(i as usize),
        None => None,
    }
}

/// Resolves the mdoc characteristics from the UUIDs of the service's
/// characteristics, in the order the service lists them.
pub fn assign_characteristics(uuids: &Vec<[u8; 16]>) -> (r: Result<MdocCharacteristics, BleError>)
    ensures
        r == characteristics_of(uuid_views(uuids@)),
{
    let mut state: Option<usize> = None;
    let mut c2s: Option<usize> = None;
    let mut s2c: Option<usize> = None;
    let mut i: usize = 0;
    while i < uuids.len()
        invariant
            i <= uuids@.len(),
            state == as_index(last_with_role(uuid_views(uuids@).take(i as int), CharacteristicRole::State)),
            c2s == as_index(last_with_role(uuid_views(uuids@).take(i as int), CharacteristicRole::Client2Server)),
            s2c == as_index(last_with_role(uuid_views(uuids@).take(i as int), CharacteristicRole::Server2Client)),
        decreases uuids@.len() - i,
    {
        let ghost prev = uuid_views(uuids@).take(i as int);
        let ghost next = uuid_views(uuids@).take(i + 1);
        assert(next.drop_last() =~= prev);
        assert(next.last() == uuids@[i as int]@);
        match characteristic_role(&uuids[i]) {
            Some(CharacteristicRole::State) => {
                state = Some(i);
            },
            Some(CharacteristicRole::Client2Server) => {
                c2s = Some(i);
            },
            Some(CharacteristicRole::Server2Client) => {
                s2c = Some(i);
            },
            None => {},
        }
        i = i + 1;
    }
    assert(uuid_views(uuids@).take(uuids@.len() as int) =~= uuid_views(uuids@));
    let ghost v = uuid_views(uuids@);
    proof {
        lemma_last_with_role_bound(v, CharacteristicRole::State);
        lemma_last_with_role_bound(v, CharacteristicRole::Client2Server);
        lemma_last_with_role_bound(v, CharacteristicRole::Server2Client);
    }
    match c2s {
        None => Err(BleError::MissingClient2Server),
        Some(client2server) => match s2c {
            None => Err(BleError::MissingServer2Client),
            Some(server2client) => match state {
                None => Err(BleError::MissingState),
                Some(state) => Ok(MdocCharacteristics { state, client2server, server2client }),
            },
        },
    }
}

/// The index that `last_with_role` finds lies within the list and has the
/// role.
proof fn lemma_last_with_role_bound(v: Seq<Seq<u8>>, role: CharacteristicRole)
    ensures
        match last_with_role(v, role) {
            Some(i) => 0 <= i < v.len() && role_of(v[i]) == Some(role),
            None => true,
        },
    decreases v.len(),
{
    if v.len() > 0 && role_of(v.last()) != Some(role) {
        lemma_last_with_role_bound(v.drop_last(), role);
    }
}

} // verus!
