use minecraft_ping::framing::{read_packet, write_packet, PacketReceiver, ReadStep};
use minecraft_ping::protocol::ProtocolError;

fn need(step: ReadStep) -> u64 {
    match step {
        ReadStep::Need(n) => n,
        ReadStep::Done(_) => panic!("packet complete too early"),
        ReadStep::Failed(e) => panic!("packet refused: {:?}", e),
    }
}

#[test]
fn frame_of_empty_body() {
    let mut buf = Vec::new();
    write_packet(&mut buf, 0, &[]);
    assert_eq!(buf, vec![0x01, 0x00]);
}

#[test]
fn frame_counts_identifier_and_body() {
    let mut buf = Vec::new();
    write_packet(&mut buf, 300, &[7, 8, 9]);
    assert_eq!(buf, vec![0x05, 0xAC, 0x02, 7, 8, 9]);
}

#[test]
fn zero_length_is_invalid() {
    assert_eq!(read_packet(&[0x00], 0, 0), Err(ProtocolError::InvalidPacketLength));
}

#[test]
fn unexpected_identifier_is_refused() {
    let frame = [0x02, 0x05, 0x00];
    assert_eq!(
        read_packet(&frame, 0, 0),
        Err(ProtocolError::InvalidPacketId { expected: 0, actual: 5 })
    );
}

#[test]
fn identifier_longer_than_length_is_invalid() {
    let frame = [0x01, 0x80, 0x00];
    assert_eq!(read_packet(&frame, 0, 0), Err(ProtocolError::InvalidPacketLength));
}

#[test]
fn packet_round_trip() {
    let mut buf = Vec::new();
    write_packet(&mut buf, 1, &[1, 2, 3, 4]);
    let len = buf.len();
    buf.push(0xEE);
    let (body, n) = read_packet(&buf, 0, 1).unwrap();
    assert_eq!(body, vec![1, 2, 3, 4]);
    assert_eq!(n, len);
}

#[test]
fn truncated_body_is_io() {
    let frame = [0x05, 0x01, 1, 2];
    assert_eq!(read_packet(&frame, 0, 1), Err(ProtocolError::Io));
    assert_eq!(read_packet(&[], 0, 1), Err(ProtocolError::Io));
    assert_eq!(read_packet(&[0x05], 0, 1), Err(ProtocolError::Io));
}

#[test]
fn bad_length_varint_is_invalid() {
    let frame = [0x80, 0x80, 0x80, 0x80, 0x80, 0x80];
    assert_eq!(read_packet(&frame, 0, 0), Err(ProtocolError::InvalidVarInt));
}

#[test]
fn receiver_asks_byte_by_byte_then_for_body() {
    let mut frame = Vec::new();
    write_packet(&mut frame, 0, &[10, 20, 30]);
    let mut rx = PacketReceiver::new(0);
    assert_eq!(need(rx.push(&[])), 1);
    assert_eq!(need(rx.push(&frame[0..1])), 1);
    assert_eq!(need(rx.push(&frame[1..2])), 3);
    match rx.push(&frame[2..]) {
        ReadStep::Done(body) => assert_eq!(body, vec![10, 20, 30]),
        _ => panic!("packet not complete"),
    }
}

#[test]
fn receiver_with_multibyte_length() {
    let body: Vec<u8> = (0..200u32).map(|i| i as u8).collect();
    let mut frame = Vec::new();
    write_packet(&mut frame, 0, &body);
    assert_eq!(&frame[0..3], &[0xC9, 0x01, 0x00]);
    let mut rx = PacketReceiver::new(0);
    let mut pos = 0;
    let mut step = rx.push(&[]);
    loop {
        match step {
            ReadStep::Need(n) => {
                let end = pos + n as usize;
                step = rx.push(&frame[pos..end]);
                pos = end;
            }
            ReadStep::Done(got) => {
                assert_eq!(got, body);
                break;
            }
            ReadStep::Failed(e) => panic!("packet refused: {:?}", e),
        }
    }
    assert_eq!(pos, frame.len());
}

#[test]
fn receiver_refuses_wrong_identifier() {
    let mut rx = PacketReceiver::new(1);
    assert_eq!(need(rx.push(&[0x09])), 1);
    match rx.push(&[0x00]) {
        ReadStep::Failed(e) => assert_eq!(e, ProtocolError::InvalidPacketId { expected: 1, actual: 0 }),
        _ => panic!("wrong identifier accepted"),
    }
}

#[test]
fn receiver_refuses_zero_length() {
    let mut rx = PacketReceiver::new(0);
    match rx.push(&[0x00]) {
        ReadStep::Failed(e) => assert_eq!(e, ProtocolError::InvalidPacketLength),
        _ => panic!("zero length accepted"),
    }
}
