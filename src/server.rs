//! A status query as a chain of connection states. Each state is consumed by
//! the step that leaves it, so a state cannot be used twice. The states hold
//! what the protocol needs and say what goes on the wire; the caller owns the
//! socket, performs the reads and writes they ask for, decodes the JSON
//! document, and drops the socket on any failure.

use std::time::Duration;

use vstd::prelude::*;

use crate::framing::{frame_bytes, lemma_frame_round_trip, packet_read, write_packet, PacketReceiver};
use crate::protocol::{
    handshake_body, ExpectedPacketId, HandshakePacket, PacketId, PingPacket, PongPacket,
    ProtocolError, RequestPacket, ResponsePacket, State,
};
use crate::wire::{be_bytes, be_read, lemma_u64_round_trip, lemma_varint_round_trip};

verus! {

/// Why a status query or a ping failed.
#[derive(Debug, PartialEq, Eq)]
pub enum ServerError {
    /// Reading or writing a packet failed, or timed out.
    ProtocolError(ProtocolError),
    /// The connection could not be opened.
    FailedToConnect,
    /// The status document is not JSON of the expected shape; it is kept as received.
    InvalidJson(String),
    /// The server echoed another ping payload than the one sent.
    MismatchedPayload { expected: u64, actual: u64 },
}

impl From<ProtocolError> for ServerError {
    fn from(err: ProtocolError) -> (r: ServerError) {
        ServerError::ProtocolError(err)
    }
}

impl vstd::std_specs::convert::FromSpecImpl<ProtocolError> for ServerError {
    open spec fn obeys_from_spec() -> bool {
        true
    }

    open spec fn from_spec(err: ProtocolError) -> ServerError {
        ServerError::ProtocolError(err)
    }
}

/// The server's game version.
#[derive(Debug)]
pub struct ServerVersion {
    /// The version's name, such as "1.15.2".
    pub name: String,
    /// The protocol version the server speaks.
    pub protocol: u32,
}

/// A player that the server lists as online.
#[derive(Debug)]
pub struct ServerPlayer {
    /// The player's in-game name.
    pub name: String,
    /// The player's UUID.
    pub id: String,
}

/// How many players the server takes and holds.
#[derive(Debug)]
pub struct ServerPlayers {
    /// The most players the server takes.
    pub max: u32,
    /// The players online now.
    pub online: u32,
    /// Some of the players online, when the server lists them.
    pub sample: Option<Vec<ServerPlayer>>,
}

/// The server's message of the day, sent either as a bare string or as an
/// object with a `text` field.
#[derive(Debug)]
pub enum ServerDescription {
    Plain(String),
    Object { text: String },
}

impl ServerDescription {
    /// The message of the day, whichever form it came in.
    pub open spec fn spec_text(&self) -> Seq<char> {
        match self {
            ServerDescription::Plain(s) => s@,
            ServerDescription::Object { text } => text@,
        }
    }

    /// The message of the day, whichever form it came in.
    pub fn text(&self) -> (r: &String)
        ensures
            r@ == self.spec_text(),
    {
        match self {
            ServerDescription::Plain(s) => s,
            ServerDescription::Object { text } => text,
        }
    }
}

/// The decoded status document of a server.
#[derive(Debug)]
pub struct StatusResponse {
    pub version: ServerVersion,
    pub players: ServerPlayers,
    pub description: ServerDescription,
    /// The server's icon, such as a data URI, when it has one.
    pub favicon: Option<String>,
}

/// The protocol version sent when the caller names none.
pub const LATEST_PROTOCOL_VERSION: usize = 578;

/// The port connected to when the caller names none.
pub const DEFAULT_PORT: u16 = 25565;

/// Seconds that each exchange may take when the caller names no timeout.
pub const DEFAULT_TIMEOUT_SECS: u64 = 2;

/// The duration of `secs` whole seconds.
pub uninterp spec fn secs_duration(secs: u64) -> Duration;

/// Relies on `Duration::from_secs`: its result depends on the number of
/// seconds alone.
pub assume_specification[ core::time::Duration::from_secs ](secs: u64) -> (r: Duration)
    ensures
        r == secs_duration(secs),
;

/// Settings of a connection that is not open yet: the first state.
pub struct ConnectionConfig {
    protocol_version: usize,
    address: String,
    port: u16,
    timeout: Duration,
}

impl ConnectionConfig {
    pub closed spec fn spec_protocol_version(&self) -> usize {
        self.protocol_version
    }

    pub closed spec fn spec_address(&self) -> Seq<char> {
        self.address@
    }

    pub closed spec fn spec_port(&self) -> u16 {
        self.port
    }

    pub closed spec fn spec_timeout(&self) -> Duration {
        self.timeout
    }

    /// Settings for `address` with the latest protocol version, the default
    /// port and a timeout of two seconds.
    pub fn build(address: String) -> (r: Self)
        ensures
            r.spec_address() == address@,
            r.spec_protocol_version() == LATEST_PROTOCOL_VERSION,
            r.spec_port() == DEFAULT_PORT,
            r.spec_timeout() == secs_duration(DEFAULT_TIMEOUT_SECS),
    {
        ConnectionConfig {
            protocol_version: LATEST_PROTOCOL_VERSION,
            address,
            port: DEFAULT_PORT,
            timeout: Duration::from_secs(DEFAULT_TIMEOUT_SECS),
        }
    }

    /// The same settings with another protocol version.
    pub fn with_protocol_version(self, protocol_version: usize) -> (r: Self)
        ensures
            r.spec_protocol_version() == protocol_version,
            r.spec_address() == self.spec_address(),
            r.spec_port() == self.spec_port(),
            r.spec_timeout() == self.spec_timeout(),
    {
        ConnectionConfig { protocol_version, ..self }
    }

    /// The same settings with another port.
    pub fn with_port(self, port: u16) -> (r: Self)
        ensures
            r.spec_port() == port,
            r.spec_protocol_version() == self.spec_protocol_version(),
            r.spec_address() == self.spec_address(),
            r.spec_timeout() == self.spec_timeout(),
    {
        ConnectionConfig { port, ..self }
    }

    /// The same settings with another timeout for each exchange.
    pub fn with_timeout(self, timeout: Duration) -> (r: Self)
        ensures
            r.spec_timeout() == timeout,
            r.spec_protocol_version() == self.spec_protocol_version(),
            r.spec_address() == self.spec_address(),
            r.spec_port() == self.spec_port(),
    {
        ConnectionConfig { timeout, ..self }
    }

    pub fn protocol_version(&self) -> (r: usize)
        ensures
            r == self.spec_protocol_version(),
    {
        self.protocol_version
    }

    pub fn address(&self) -> (r: &String)
        ensures
            r@ == self.spec_address(),
    {
        &self.address
    }

    pub fn port(&self) -> (r: u16)
        ensures
            r == self.spec_port(),
    {
        self.port
    }

    pub fn timeout(&self) -> (r: Duration)
        ensures
            r == self.spec_timeout(),
    {
        self.timeout
    }

    /// The connection has been opened: the settings pass to the connected state.
    pub fn connected(self) -> (r: StatusConnection)
        ensures
            r.spec_protocol_version() == self.spec_protocol_version(),
            r.spec_address() == self.spec_address(),
            r.spec_port() == self.spec_port(),
            r.spec_timeout() == self.spec_timeout(),
    {
        StatusConnection {
            protocol_version: self.protocol_version,
            address: self.address,
            port: self.port,
            timeout: self.timeout,
        }
    }
}

/// An open connection on which nothing has been sent yet: the second state.
pub struct StatusConnection {
    protocol_version: usize,
    address: String,
    port: u16,
    timeout: Duration,
}

impl StatusConnection {
    pub closed spec fn spec_protocol_version(&self) -> usize {
        self.protocol_version
    }

    pub closed spec fn spec_address(&self) -> Seq<char> {
        self.address@
    }

    pub closed spec fn spec_port(&self) -> u16 {
        self.port
    }

    pub closed spec fn spec_timeout(&self) -> Duration {
        self.timeout
    }

    pub fn timeout(&self) -> (r: Duration)
        ensures
            r == self.spec_timeout(),
    {
        self.timeout
    }

    /// The first frame to send: a handshake with this connection's protocol
    /// version, address and port that asks for the status state.
    pub fn handshake_frame(&self) -> (r: Vec<u8>)
        ensures
            r@ == frame_bytes(
                0,
                handshake_body(
                    self.spec_protocol_version() as nat,
                    self.spec_address(),
                    self.spec_port(),
                    State::Status,
                ),
            ),
    {
        let handshake = HandshakePacket::new(
            self.protocol_version,
            self.address.clone(),
            self.port,
        );
        let body = handshake.write_to_buffer();
        let mut frame: Vec<u8> = Vec::new();
        write_packet(&mut frame, handshake.get_packet_id(), body.as_slice());
        frame
    }

    /// The second frame to send: a status request.
    pub fn request_frame(&self) -> (r: Vec<u8>)
        ensures
            r@ == frame_bytes(0, Seq::<u8>::empty()),
    {
        let request = RequestPacket::new();
        let body = request.write_to_buffer();
        let mut frame: Vec<u8> = Vec::new();
        write_packet(&mut frame, request.get_packet_id(), body.as_slice());
        frame
    }

    /// A receiver for the server's status response.
    pub fn response_receiver(&self) -> (r: PacketReceiver)
        ensures
            r.expected_id() == 0,
            r.received() == Seq::<u8>::empty(),
    {
        PacketReceiver::new(ResponsePacket::get_expected_packet_id() as u64)
    }

    /// The status document has been received and decoded: the connection
    /// passes to the state that may ping.
    pub fn status(self, status: StatusResponse) -> (r: PingConnection)
        ensures
            r.spec_protocol_version() == self.spec_protocol_version(),
            r.spec_address() == self.spec_address(),
            r.spec_port() == self.spec_port(),
            r.spec_timeout() == self.spec_timeout(),
            r.spec_status() == status,
    {
        PingConnection {
            protocol_version: self.protocol_version,
            address: self.address,
            port: self.port,
            timeout: self.timeout,
            status,
        }
    }
}

/// A connection whose status has been read: the third state. The server
/// closes the connection after one ping.
pub struct PingConnection {
    protocol_version: usize,
    address: String,
    port: u16,
    timeout: Duration,
    /// The status document the server sent.
    pub status: StatusResponse,
}

impl PingConnection {
    pub closed spec fn spec_protocol_version(&self) -> usize {
        self.protocol_version
    }

    pub closed spec fn spec_address(&self) -> Seq<char> {
        self.address@
    }

    pub closed spec fn spec_port(&self) -> u16 {
        self.port
    }

    pub closed spec fn spec_timeout(&self) -> Duration {
        self.timeout
    }

    pub closed spec fn spec_status(&self) -> StatusResponse {
        self.status
    }

    pub fn timeout(&self) -> (r: Duration)
        ensures
            r == self.spec_timeout(),
    {
        self.timeout
    }

    /// The frame of a ping that carries `payload`.
    pub fn ping_frame(&self, payload: u64) -> (r: Vec<u8>)
        ensures
            r@ == frame_bytes(1, be_bytes(payload as nat, 8)),
    {
        let ping = PingPacket::new(payload);
        let body = ping.write_to_buffer();
        let mut frame: Vec<u8> = Vec::new();
        write_packet(&mut frame, ping.get_packet_id(), body.as_slice());
        frame
    }

    /// A receiver for the server's pong.
    pub fn pong_receiver(&self) -> (r: PacketReceiver)
        ensures
            r.expected_id() == 1,
            r.received() == Seq::<u8>::empty(),
    {
        PacketReceiver::new(PongPacket::get_expected_packet_id() as u64)
    }

    /// The pong for a ping with `payload` has arrived: the exchange succeeds
    /// when it echoes the payload. Either way the connection is finished.
    pub fn complete_ping(self, payload: u64, pong: &PongPacket) -> (r: Result<(), ServerError>)
        ensures
            r == if pong.payload == payload {
                Ok::<(), ServerError>(())
            } else {
                Err(ServerError::MismatchedPayload { expected: payload, actual: pong.payload })
            },
    {
        if pong.payload != payload {
            return Err(ServerError::MismatchedPayload { expected: payload, actual: pong.payload });
        }
        Ok(())
    }
}

/// A server that sends the ping frame back unchanged has sent a valid pong
/// frame, and the pong in it carries the payload of the ping.
pub proof fn lemma_echoed_ping(payload: u64)
    ensures
        packet_read(frame_bytes(1, be_bytes(payload as nat, 8)), 1) matches Ok((body, _))
            && be_read(body, 8) == Ok::<(u64, usize), ProtocolError>((payload, 8)),
{
    let body = be_bytes(payload as nat, 8);
    let frame = frame_bytes(1, body);
    lemma_u64_round_trip(payload, Seq::empty());
    assert(body + Seq::<u8>::empty() =~= body);
    assert(frame + Seq::<u8>::empty() =~= frame);
    lemma_varint_round_trip(1, body);
    lemma_frame_round_trip(1, body, Seq::empty());
}

} // verus!
