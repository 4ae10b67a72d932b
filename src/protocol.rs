//! Errors of the wire protocol, and the packets of a status query.

use vstd::prelude::*;

use crate::wire::{
    be_bytes, be_read, read_string, read_u64_be, rest, string_bytes, string_read, wire_varint,
    write_string, write_u16_be, write_u64_be, write_varint,
};

verus! {

/// Why reading or writing a packet failed.
#[derive(Debug, Clone, Copy, PartialEq, Eq, Structural)]
pub enum ProtocolError {
    /// The channel failed, or ended before a value was complete.
    Io,
    /// A packet declared a length of zero, or one too short for its identifier.
    InvalidPacketLength,
    /// A variable-length integer ran over five bytes.
    InvalidVarInt,
    /// A packet carried another identifier than the one expected.
    InvalidPacketId { expected: u64, actual: u64 },
    /// A string's bytes were not valid UTF-8.
    InvalidResponseBody,
    /// An exchange did not complete within its time budget.
    Timeout,
}

/// The state that a handshake asks the server to move to. Only the status
/// state is used here.
#[derive(Debug, Clone, Copy, PartialEq, Eq, Structural)]
pub enum State {
    Status,
}

/// The number that stands for `state` on the wire.
pub open spec fn state_number(state: State) -> usize {
    match state {
        State::Status => 1,
    }
}

impl From<State> for usize {
    fn from(state: State) -> (r: usize) {
        match state {
            State::Status => 1,
        }
    }
}

impl vstd::std_specs::convert::FromSpecImpl<State> for usize {
    open spec fn obeys_from_spec() -> bool {
        true
    }

    open spec fn from_spec(state: State) -> usize {
        state_number(state)
    }
}

/// A packet that knows the identifier it is sent with.
pub trait PacketId {
    fn get_packet_id(&self) -> usize;
}

/// A packet kind that knows the identifier it must arrive with.
pub trait ExpectedPacketId {
    fn get_expected_packet_id() -> usize;
}

/// Body of a handshake: protocol version, server address, server port and
/// the state asked for.
pub open spec fn handshake_body(
    protocol_version: nat,
    server_address: Seq<char>,
    server_port: u16,
    next_state: State,
) -> Seq<u8> {
    wire_varint(protocol_version) + string_bytes(server_address) + be_bytes(server_port as nat, 2)
        + wire_varint(state_number(next_state) as nat)
}

/// The first of the two packets that open a status query.
pub struct HandshakePacket {
    pub packet_id: usize,
    pub protocol_version: usize,
    pub server_address: String,
    pub server_port: u16,
    pub next_state: State,
}

impl HandshakePacket {
    /// A handshake that asks for the status state, sent with identifier 0.
    pub fn new(protocol_version: usize, server_address: String, server_port: u16) -> (r: Self)
        ensures
            r.packet_id == 0,
            r.protocol_version == protocol_version,
            r.server_address@ == server_address@,
            r.server_port == server_port,
            r.next_state == State::Status,
    {
        HandshakePacket {
            packet_id: 0,
            protocol_version,
            server_address,
            server_port,
            next_state: State::Status,
        }
    }

    /// The body of this handshake.
    pub fn write_to_buffer(&self) -> (r: Vec<u8>)
        ensures
            r@ == handshake_body(
                self.protocol_version as nat,
                self.server_address@,
                self.server_port,
                self.next_state,
            ),
    {
        let mut buffer: Vec<u8> = Vec::new();
        write_varint(&mut buffer, self.protocol_version);
        write_string(&mut buffer, self.server_address.as_str());
        write_u16_be(&mut buffer, self.server_port);
        write_varint(&mut buffer, usize::from(self.next_state));
        assert(buffer@ =~= handshake_body(
            self.protocol_version as nat,
            self.server_address@,
            self.server_port,
            self.next_state,
        ));
        buffer
    }
}

impl PacketId for HandshakePacket {
    fn get_packet_id(&self) -> (r: usize)
        ensures
            r == self.packet_id,
    {
        self.packet_id
    }
}

/// The second of the two packets that open a status query; it has no body.
pub struct RequestPacket {
    pub packet_id: usize,
}

impl RequestPacket {
    /// A status request, sent with identifier 0.
    pub fn new() -> (r: Self)
        ensures
            r.packet_id == 0,
    {
        RequestPacket { packet_id: 0 }
    }

    /// The body of a status request: empty.
    pub fn write_to_buffer(&self) -> (r: Vec<u8>)
        ensures
            r@ == Seq::<u8>::empty(),
    {
        Vec::new()
    }
}

impl PacketId for RequestPacket {
    fn get_packet_id(&self) -> (r: usize)
        ensures
            r == self.packet_id,
    {
        self.packet_id
    }
}

/// The server's answer to a status request: a JSON document as a string.
pub struct ResponsePacket {
    pub packet_id: usize,
    pub body: String,
}

impl ResponsePacket {
    /// Decodes a response from the body of its packet.
    pub fn read_from_buffer(buffer: &[u8]) -> (r: Result<ResponsePacket, ProtocolError>)
        ensures
            match string_read(buffer@) {
                Ok((chars, _)) => r matches Ok(p) && p.packet_id == 0 && p.body@ == chars,
                Err(e) => r matches Err(f) && f == e,
            },
    {
        assert(rest(buffer@, 0) =~= buffer@);
        match read_string(buffer, 0) {
            Ok((body, _)) => Ok(ResponsePacket { packet_id: 0, body }),
            Err(e) => Err(e),
        }
    }
}

impl ExpectedPacketId for ResponsePacket {
    fn get_expected_packet_id() -> (r: usize)
        ensures
            r == 0,
    {
        0
    }
}

/// A latency probe carrying a payload that the server echoes.
pub struct PingPacket {
    pub packet_id: usize,
    pub payload: u64,
}

impl PingPacket {
    /// A ping with `payload`, sent with identifier 1.
    pub fn new(payload: u64) -> (r: Self)
        ensures
            r.packet_id == 1,
            r.payload == payload,
    {
        PingPacket { packet_id: 1, payload }
    }

    /// The body of this ping: the payload as eight big-endian bytes.
    pub fn write_to_buffer(&self) -> (r: Vec<u8>)
        ensures
            r@ == be_bytes(self.payload as nat, 8),
    {
        let mut buffer: Vec<u8> = Vec::new();
        write_u64_be(&mut buffer, self.payload);
        assert(buffer@ =~= be_bytes(self.payload as nat, 8));
        buffer
    }
}

impl PacketId for PingPacket {
    fn get_packet_id(&self) -> (r: usize)
        ensures
            r == self.packet_id,
    {
        self.packet_id
    }
}

/// The server's echo of a ping.
pub struct PongPacket {
    pub packet_id: usize,
    pub payload: u64,
}

impl PongPacket {
    /// Decodes a pong from the body of its packet.
    pub fn read_from_buffer(buffer: &[u8]) -> (r: Result<PongPacket, ProtocolError>)
        ensures
            match be_read(buffer@, 8) {
                Ok((v, _)) => r matches Ok(p) && p.packet_id == 1 && p.payload == v,
                Err(e) => r matches Err(f) && f == e,
            },
    {
        assert(rest(buffer@, 0) =~= buffer@);
        match read_u64_be(buffer, 0) {
            Ok((payload, _)) => Ok(PongPacket { packet_id: 1, payload }),
            Err(e) => Err(e),
        }
    }
}

impl ExpectedPacketId for PongPacket {
    fn get_expected_packet_id() -> (r: usize)
        ensures
            r == 1,
    {
        1
    }
}

} // verus!
