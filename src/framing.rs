//! The packet envelope: a variable-length total length, then the packet
//! identifier as a variable-length integer, then the body. The length counts
//! the identifier's own bytes and the body.

use vstd::prelude::*;

use crate::protocol::ProtocolError;
use crate::wire::{
    copy_bytes, lemma_varint_read_bounds, lemma_varint_read_extend, lemma_varint_round_trip, read_varint,
    rest, varint_read, wire_varint, write_bytes, write_varint,
};

verus! {

/// The frame that `write_packet` produces for identifier `id` and `body`.
pub open spec fn frame_bytes(id: nat, body: Seq<u8>) -> Seq<u8> {
    let inner = wire_varint(id) + body;
    wire_varint(inner.len()) + inner
}

/// How the frame at the front of `s` is laid out, as far as its two leading
/// integers tell: the size of those integers together and the size of the
/// body. An error here is the error of the read, whatever follows; `Io` means
/// that the leading integers are not complete yet.
pub open spec fn packet_layout(s: Seq<u8>, expected: u64) -> Result<(usize, u64), ProtocolError> {
    match varint_read(s) {
        Err(e) => Err(e),
        Ok((len, n1)) => {
            if len == 0 {
                Err(ProtocolError::InvalidPacketLength)
            } else {
                match varint_read(s.subrange(n1 as int, s.len() as int)) {
                    Err(e) => Err(e),
                    Ok((id, n2)) => {
                        if id != expected {
                            Err(ProtocolError::InvalidPacketId { expected, actual: id })
                        } else if len < n2 {
                            Err(ProtocolError::InvalidPacketLength)
                        } else {
                            Ok(((n1 + n2) as usize, (len - n2) as u64))
                        }
                    },
                }
            }
        },
    }
}

/// Reading a packet with identifier `expected` from the front of `s`: its
/// body and the size of the whole frame.
pub open spec fn packet_read(s: Seq<u8>, expected: u64) -> Result<(Seq<u8>, usize), ProtocolError> {
    match packet_layout(s, expected) {
        Err(e) => Err(e),
        Ok((head, len)) => {
            if s.len() < head + len {
                Err(ProtocolError::Io)
            } else {
                Ok((s.subrange(head as int, head + len), (head + len) as usize))
            }
        },
    }
}

/// How many more bytes a reader that holds `s` must take before the packet
/// read can go further: one while the leading integers are incomplete, else
/// what the body still lacks.
pub open spec fn bytes_missing(s: Seq<u8>, expected: u64) -> u64 {
    match packet_layout(s, expected) {
        Ok((head, len)) => (head + len - s.len()) as u64,
        Err(_) => 1,
    }
}

/// A packet written with `write_packet` reads back with its body, whatever
/// follows it, when its identifier and its length fit in 32 bits.
pub proof fn lemma_frame_round_trip(id: nat, body: Seq<u8>, tail: Seq<u8>)
    requires
        id < 0x1_0000_0000,
        (wire_varint(id) + body).len() < 0x1_0000_0000,
    ensures
        packet_read(frame_bytes(id, body) + tail, id as u64) == Ok::<(Seq<u8>, usize), ProtocolError>(
            (body, frame_bytes(id, body).len() as usize),
        ),
{
    let head = wire_varint(id);
    let inner = head + body;
    let outer = wire_varint(inner.len());
    let s = frame_bytes(id, body) + tail;
    assert(s =~= outer + (inner + tail));
    lemma_varint_round_trip(inner.len(), inner + tail);
    lemma_varint_round_trip(id, body + tail);
    let n1 = outer.len();
    assert(s.subrange(n1 as int, s.len() as int) =~= head + (body + tail));
    let n2 = head.len();
    assert(s.subrange((n1 + n2) as int, (n1 + n2 + body.len()) as int) =~= body);
}

/// Reading a packet in pieces is sound: a read that has finished, with a
/// body or with an error other than a short read, keeps its outcome whatever
/// bytes follow; and while it is short, it asks for at least one byte and
/// stays short until all the bytes it asked for have come.
pub proof fn lemma_packet_read_extend(s: Seq<u8>, t: Seq<u8>, expected: u64)
    ensures
        packet_read(s, expected) != Err::<(Seq<u8>, usize), ProtocolError>(ProtocolError::Io)
            ==> packet_read(s + t, expected) == packet_read(s, expected),
        packet_read(s, expected) == Err::<(Seq<u8>, usize), ProtocolError>(ProtocolError::Io)
            ==> bytes_missing(s, expected) >= 1,
        packet_read(s, expected) == Err::<(Seq<u8>, usize), ProtocolError>(ProtocolError::Io)
            && t.len() < bytes_missing(s, expected) ==> packet_read(s + t, expected) == Err::<
            (Seq<u8>, usize),
            ProtocolError,
        >(ProtocolError::Io),
{
    let st = s + t;
    lemma_varint_read_bounds(s);
    lemma_varint_read_extend(s, t);
    if let Ok((len, n1)) = varint_read(s) {
        let s2 = s.subrange(n1 as int, s.len() as int);
        assert(st.subrange(n1 as int, st.len() as int) =~= s2 + t);
        lemma_varint_read_bounds(s2);
        lemma_varint_read_extend(s2, t);
        assert(varint_read(st) == varint_read(s));
    }
    if packet_layout(s, expected) != Err::<(usize, u64), ProtocolError>(ProtocolError::Io) {
        assert(packet_layout(st, expected) == packet_layout(s, expected));
        if let Ok((head, len)) = packet_layout(s, expected) {
            if s.len() >= head + len {
                assert(st.subrange(head as int, head + len) =~= s.subrange(head as int, head + len));
            }
        }
    } else if t.len() < bytes_missing(s, expected) {
        assert(st =~= s);
    }
}

/// Appends the frame of a packet with identifier `id` and body `body`.
pub fn write_packet(buf: &mut Vec<u8>, id: usize, body: &[u8])
    ensures
        final(buf)@ == old(buf)@ + frame_bytes(id as nat, body@),
{
    let mut inner: Vec<u8> = Vec::new();
    write_varint(&mut inner, id);
    write_bytes(&mut inner, body);
    assert(inner@ =~= wire_varint(id as nat) + body@);
    write_varint(buf, inner.len());
    write_bytes(buf, inner.as_slice());
    assert(final(buf)@ =~= old(buf)@ + frame_bytes(id as nat, body@));
}

/// Finds the layout of the frame at `pos` in `data`.
fn read_layout(data: &[u8], pos: usize, expected: u64) -> (r: Result<(usize, u64), ProtocolError>)
    requires
        pos <= data@.len(),
    ensures
        r == packet_layout(rest(data@, pos as int), expected),
        r matches Ok((head, len)) ==> pos + head <= data@.len() && head <= 10 && len
            < 0x8_0000_0000,
{
    let ghost s = rest(data@, pos as int);
    let dlen = data.len();
    let (len, n1) = match read_varint(data, pos) {
        Ok(p) => p,
        Err(e) => return Err(e),
    };
    proof {
        lemma_varint_read_bounds(s);
    }
    assert(pos + n1 <= dlen);
    if len == 0 {
        return Err(ProtocolError::InvalidPacketLength);
    }
    let (id, n2) = match read_varint(data, pos + n1) {
        Ok(p) => p,
        Err(e) => {
            assert(rest(data@, pos + n1) =~= s.subrange(n1 as int, s.len() as int));
            return Err(e);
        },
    };
    assert(rest(data@, pos + n1) =~= s.subrange(n1 as int, s.len() as int));
    proof {
        lemma_varint_read_bounds(s.subrange(n1 as int, s.len() as int));
    }
    if id != expected {
        return Err(ProtocolError::InvalidPacketId { expected, actual: id });
    }
    if len < n2 as u64 {
        return Err(ProtocolError::InvalidPacketLength);
    }
    Ok((n1 + n2, len - n2 as u64))
}

/// Reads a packet with identifier `expected` from `data` at `pos`: its body
/// and the size of the whole frame.
pub fn read_packet(data: &[u8], pos: usize, expected: u64) -> (r: Result<(Vec<u8>, usize), ProtocolError>)
    requires
        pos <= data@.len(),
    ensures
        match packet_read(rest(data@, pos as int), expected) {
            Ok((body, n)) => r matches Ok((b, m)) && b@ == body && m == n,
            Err(e) => r == Err::<(Vec<u8>, usize), ProtocolError>(e),
        },
{
    let ghost s = rest(data@, pos as int);
    let (head, len) = match read_layout(data, pos, expected) {
        Ok(p) => p,
        Err(e) => return Err(e),
    };
    let avail = data.len() - pos - head;
    if (avail as u64) < len {
        return Err(ProtocolError::Io);
    }
    let len = len as usize;
    let body = copy_bytes(data, pos + head, len);
    assert(body@ =~= s.subrange(head as int, head + len));
    Ok((body, head + len))
}

/// What a packet receiver asks for after taking some bytes.
#[derive(Debug)]
pub enum ReadStep {
    /// Read exactly this many more bytes and hand them over.
    Need(u64),
    /// The packet is complete; this is its body.
    Done(Vec<u8>),
    /// The packet is refused.
    Failed(ProtocolError),
}

/// Receives one packet from a channel in pieces, asking each time for no
/// more bytes than the packet still holds, so nothing past the frame is taken.
pub struct PacketReceiver {
    expected: u64,
    received: Vec<u8>,
}

impl PacketReceiver {
    /// The identifier that the packet must carry.
    pub closed spec fn expected_id(&self) -> u64 {
        self.expected
    }

    /// The bytes taken so far.
    pub closed spec fn received(&self) -> Seq<u8> {
        self.received@
    }

    /// A receiver for a packet with identifier `expected` that has taken nothing yet.
    pub fn new(expected: u64) -> (r: PacketReceiver)
        ensures
            r.expected_id() == expected,
            r.received() == Seq::<u8>::empty(),
    {
        PacketReceiver { expected, received: Vec::new() }
    }

    /// Takes the next bytes from the channel and says what comes next. Given
    /// no bytes at the start, it asks for the first one.
    pub fn push(&mut self, chunk: &[u8]) -> (step: ReadStep)
        ensures
            final(self).expected_id() == old(self).expected_id(),
            final(self).received() == old(self).received() + chunk@,
            match packet_read(final(self).received(), final(self).expected_id()) {
                Ok((body, _)) => step matches ReadStep::Done(b) && b@ == body,
                Err(ProtocolError::Io) => step == ReadStep::Need(
                    bytes_missing(final(self).received(), final(self).expected_id()),
                ),
                Err(e) => step == ReadStep::Failed(e),
            },
    {
        write_bytes(&mut self.received, chunk);
        let data = self.received.as_slice();
        assert(rest(data@, 0) =~= data@);
        match read_packet(data, 0, self.expected) {
            Ok((body, _)) => ReadStep::Done(body),
            Err(ProtocolError::Io) => {
                let missing = match read_layout(data, 0, self.expected) {
                    Ok((head, len)) => (head as u64 + len) - data.len() as u64,
                    Err(_) => 1,
                };
                ReadStep::Need(missing)
            },
            Err(e) => ReadStep::Failed(e),
        }
    }
}

} // verus!
