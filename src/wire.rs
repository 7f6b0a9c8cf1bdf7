//! Wire-level rules shared by both ends: the protocol version, client ids,
//! the reliable channel's length-prefixed frames and the datagram size limit.
use vstd::prelude::*;

verus! {

/// Protocol version for compatibility checks.
pub const PROTOCOL_VERSION: u32 = 1;

/// Largest datagram payload, in bytes.
pub const MAX_DATAGRAM: usize = 65536;

/// Identifies a connected client.
#[derive(Debug, Clone, Copy, PartialEq, Eq, Hash, Structural)]
pub struct ClientId(pub u32);

/// Mints client ids from an increasing counter starting at 1.
pub struct ClientIdAllocator {
    next: u32,
    issued: Ghost<Set<u32>>,
}

impl ClientIdAllocator {
    /// The ids handed out so far.
    pub closed spec fn issued(&self) -> Set<u32> {
        self.issued@
    }

    /// The id that the next allocation returns.
    pub closed spec fn next_id(&self) -> u32 {
        self.next
    }

    /// Every issued id is non-zero and below the next one.
    pub closed spec fn wf(&self) -> bool {
        &&& self.next >= 1
        &&& forall|x: u32| self.issued@.contains(x) ==> 1 <= x < self.next
    }

    /// An allocator that has issued nothing.
    pub fn new() -> (r: Self)
        ensures
            r.wf(),
            r.issued() == Set::<u32>::empty(),
            r.next_id() == 1,
    {
        ClientIdAllocator { next: 1, issued: Ghost(Set::empty()) }
    }

    /// A fresh id: non-zero and different from every id issued before.
    /// `None` once the 32-bit space is used up; nothing changes then.
    pub fn new_unique(&mut self) -> (r: Option<ClientId>)
        requires
            old(self).wf(),
        ensures
            final(self).wf(),
            old(self).next_id() < u32::MAX ==> r == Some(ClientId(old(self).next_id())),
            old(self).next_id() == u32::MAX ==> r is None && *final(self) == *old(self),
            r matches Some(id) ==> id.0 != 0 && !old(self).issued().contains(id.0)
                && final(self).issued() == old(self).issued().insert(id.0)
                && final(self).next_id() == old(self).next_id() + 1,
    {
        if self.next == u32::MAX {
            return None;
        }
        let id = self.next;
        self.issued = Ghost(self.issued@.insert(id));
        self.next = self.next + 1;
        Some(ClientId(id))
    }
}

/// What an allocator hands out over `k` successive allocations.
pub open spec fn allocations(start: u32, k: nat) -> Seq<u32> {
    Seq::new(k, |i: int| (start + i) as u32)
}

/// Allocations on one allocator never repeat an id and never return zero:
/// an allocator in a valid state returns `next_id()` first, then
/// `next_id() + 1`, and so on, none of them issued before.
pub proof fn lemma_client_ids_unique(a: ClientIdAllocator, k: nat)
    requires
        a.wf(),
        a.next_id() + k <= u32::MAX,
    ensures
        forall|i: int, j: int|
            0 <= i < j < k ==> allocations(a.next_id(), k)[i] != allocations(a.next_id(), k)[j],
        forall|i: int| 0 <= i < k ==> allocations(a.next_id(), k)[i] != 0,
        forall|i: int| 0 <= i < k ==> !a.issued().contains(#[trigger] allocations(a.next_id(), k)[i]),
{
}

/// A handshake's first message is accepted only with the same protocol
/// version.
pub fn protocol_matches(protocol: u32) -> (r: bool)
    ensures
        r <==> protocol == PROTOCOL_VERSION,
{
    protocol == PROTOCOL_VERSION
}

/// Big-endian bytes of `v`.
pub open spec fn be_bytes(v: u32) -> Seq<u8> {
    seq![(v >> 24u32) as u8, (v >> 16u32) as u8, (v >> 8u32) as u8, v as u8]
}

/// The number that four big-endian bytes spell.
pub open spec fn be_value(b0: u8, b1: u8, b2: u8, b3: u8) -> u32 {
    ((b0 as u32) << 24u32) | ((b1 as u32) << 16u32) | ((b2 as u32) << 8u32) | (b3 as u32)
}

/// A frame of the reliable channel: the payload's length as four big-endian
/// bytes, then the payload.
pub open spec fn frame_of(payload: Seq<u8>) -> Seq<u8> {
    be_bytes(payload.len() as u32) + payload
}

proof fn lemma_be_round_trip(v: u32)
    ensures
        be_value(be_bytes(v)[0], be_bytes(v)[1], be_bytes(v)[2], be_bytes(v)[3]) == v,
{
    let b = be_bytes(v);
    assert(b[0] == (v >> 24u32) as u8 && b[1] == (v >> 16u32) as u8 && b[2] == (v >> 8u32) as u8
        && b[3] == v as u8);
    assert((((((v >> 24u32) as u8) as u32) << 24u32) | ((((v >> 16u32) as u8) as u32) << 16u32)
        | ((((v >> 8u32) as u8) as u32) << 8u32) | (((v as u8) as u32))) == v) by (bit_vector);
}

/// Why a frame could not be made or read.
#[derive(Debug, Clone, Copy, PartialEq, Eq, Structural)]
pub enum FrameError {
    /// The payload is longer than a 32-bit length prefix can say.
    TooLarge,
    /// Fewer bytes than the prefix and the payload it announces.
    Incomplete,
}

/// Four big-endian bytes of `v`.
pub fn u32_to_be(v: u32) -> (r: [u8; 4])
    ensures
        r@ == be_bytes(v),
{
    let r = [(v >> 24u32) as u8, (v >> 16u32) as u8, (v >> 8u32) as u8, v as u8];
    assert(r@ =~= be_bytes(v));
    r
}

/// The number that four big-endian bytes spell.
pub fn u32_from_be(b: [u8; 4]) -> (r: u32)
    ensures
        r == be_value(b@[0], b@[1], b@[2], b@[3]),
{
    ((b[0] as u32) << 24u32) | ((b[1] as u32) << 16u32) | ((b[2] as u32) << 8u32) | (b[3] as u32)
}

/// Frames `payload` for the reliable channel: length prefix, then payload.
pub fn encode_frame(payload: &[u8]) -> (r: Result<Vec<u8>, FrameError>)
    ensures
        payload@.len() <= u32::MAX ==> (r matches Ok(f) && f@ == frame_of(payload@)),
        payload@.len() > u32::MAX ==> r == Err::<Vec<u8>, FrameError>(FrameError::TooLarge),
{
    if payload.len() > 0xffff_ffffusize {
        return Err(FrameError::TooLarge);
    }
    let len = payload.len() as u32;
    let head = u32_to_be(len);
    let mut out: Vec<u8> = Vec::new();
    out.push(head[0]);
    out.push(head[1]);
    out.push(head[2]);
    out.push(head[3]);
    let mut i: usize = 0;
    while i < payload.len()
        invariant
            i <= payload@.len(),
            out@ == be_bytes(len) + payload@.subrange(0, i as int),
        decreases payload@.len() - i,
    {
        out.push(payload[i]);
        i = i + 1;
        assert(out@ =~= be_bytes(len) + payload@.subrange(0, i as int));
    }
    assert(payload@.subrange(0, payload@.len() as int) =~= payload@);
    Ok(out)
}

/// The payload length that a frame's four-byte prefix announces.
pub fn frame_len(head: &[u8]) -> (r: Option<u32>)
    ensures
        head@.len() < 4 ==> r is None,
        head@.len() >= 4 ==> r == Some(be_value(head@[0], head@[1], head@[2], head@[3])),
{
    if head.len() < 4 {
        return None;
    }
    Some(u32_from_be([head[0], head[1], head[2], head[3]]))
}

/// Reads the first frame of `buf`: its payload, and how many bytes of `buf`
/// the frame took.
pub fn decode_frame(buf: &[u8]) -> (r: Result<(Vec<u8>, usize), FrameError>)
    ensures
        match r {
            Ok((p, used)) => buf@.len() >= 4 && used == 4 + p@.len() && used <= buf@.len()
                && p@.len() == be_value(buf@[0], buf@[1], buf@[2], buf@[3]) as nat
                && p@ == buf@.subrange(4, used as int),
            Err(e) => e == FrameError::Incomplete && (buf@.len() < 4 || buf@.len() < 4 + be_value(
                buf@[0],
                buf@[1],
                buf@[2],
                buf@[3],
            )),
        },
{
    let n = match frame_len(buf) {
        Some(n) => n,
        None => return Err(FrameError::Incomplete),
    };
    if buf.len() - 4 < n as usize {
        return Err(FrameError::Incomplete);
    }
    let end: usize = 4 + n as usize;
    let mut p: Vec<u8> = Vec::with_capacity(n as usize);
    let mut i: usize = 4;
    while i < end
        invariant
            4 <= i <= end <= buf@.len(),
            p@ == buf@.subrange(4, i as int),
        decreases end - i,
    {
        p.push(buf[i]);
        i = i + 1;
        assert(p@ =~= buf@.subrange(4, i as int));
    }
    Ok((p, end))
}

/// Reading back a frame gives the payload that was framed, and the frame's
/// whole length.
pub proof fn lemma_frame_round_trip(payload: Seq<u8>, rest: Seq<u8>)
    requires
        payload.len() <= u32::MAX,
    ensures
        ({
            let f = frame_of(payload) + rest;
            &&& f.len() >= 4
            &&& be_value(f[0], f[1], f[2], f[3]) == payload.len()
            &&& f.subrange(4, 4 + payload.len() as int) == payload
        }),
{
    let f = frame_of(payload) + rest;
    lemma_be_round_trip(payload.len() as u32);
    assert(f.subrange(4, 4 + payload.len() as int) =~= payload);
}

/// A datagram payload fits in one datagram.
pub fn datagram_fits(len: usize) -> (r: bool)
    ensures
        r <==> len <= MAX_DATAGRAM,
{
    len <= MAX_DATAGRAM
}

} // verus!
