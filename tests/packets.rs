use minecraft_ping::protocol::{
    ExpectedPacketId, HandshakePacket, PacketId, PingPacket, PongPacket, ProtocolError,
    RequestPacket, ResponsePacket, State,
};

#[test]
fn state_status_is_one() {
    assert_eq!(usize::from(State::Status), 1);
}

#[test]
fn handshake_body_layout() {
    let packet = HandshakePacket::new(578, "localhost".to_string(), 25565);
    assert_eq!(packet.get_packet_id(), 0);
    assert_eq!(packet.protocol_version, 578);
    assert_eq!(packet.server_address, "localhost");
    assert_eq!(packet.server_port, 25565);
    assert!(packet.next_state == State::Status);
    let mut expected = vec![0xC2, 0x04, 0x09];
    expected.extend_from_slice(b"localhost");
    expected.extend_from_slice(&[0x63, 0xDD, 0x01]);
    assert_eq!(packet.write_to_buffer(), expected);
}

#[test]
fn request_has_empty_body() {
    let packet = RequestPacket::new();
    assert_eq!(packet.get_packet_id(), 0);
    assert!(packet.write_to_buffer().is_empty());
}

#[test]
fn ping_body_is_big_endian_payload() {
    let packet = PingPacket::new(42);
    assert_eq!(packet.get_packet_id(), 1);
    assert_eq!(packet.payload, 42);
    assert_eq!(packet.write_to_buffer(), vec![0, 0, 0, 0, 0, 0, 0, 42]);
}

#[test]
fn response_decodes_string_body() {
    let mut body = vec![0x07];
    body.extend_from_slice(b"{\"a\":1}");
    let packet = ResponsePacket::read_from_buffer(&body).unwrap();
    assert_eq!(packet.body, "{\"a\":1}");
    assert_eq!(packet.packet_id, 0);
    assert_eq!(ResponsePacket::get_expected_packet_id(), 0);
}

#[test]
fn response_with_invalid_utf8_is_refused() {
    let body = [0x01, 0xFF];
    assert!(matches!(
        ResponsePacket::read_from_buffer(&body),
        Err(ProtocolError::InvalidResponseBody)
    ));
}

#[test]
fn response_with_short_body_is_io() {
    let body = [0x04, b'a'];
    assert!(matches!(ResponsePacket::read_from_buffer(&body), Err(ProtocolError::Io)));
}

#[test]
fn pong_decodes_payload() {
    let pong = PongPacket::read_from_buffer(&[0, 0, 0, 0, 0, 0, 1, 2]).unwrap();
    assert_eq!(pong.payload, 258);
    assert_eq!(pong.packet_id, 1);
    assert_eq!(PongPacket::get_expected_packet_id(), 1);
}

#[test]
fn pong_with_short_body_is_io() {
    assert!(matches!(PongPacket::read_from_buffer(&[0, 1, 2]), Err(ProtocolError::Io)));
}
