use minecraft_ping::protocol::ProtocolError;
use minecraft_ping::wire::{
    read_string, read_u16_be, read_u64_be, read_varint, write_string, write_u16_be,
    write_u64_be, write_varint,
};

fn varint_of(v: usize) -> Vec<u8> {
    let mut buf = Vec::new();
    write_varint(&mut buf, v);
    buf
}

#[test]
fn varint_known_encodings() {
    assert_eq!(varint_of(0), vec![0x00]);
    assert_eq!(varint_of(300), vec![0xAC, 0x02]);
    assert_eq!(varint_of(127), vec![0x7F]);
    assert_eq!(varint_of(128), vec![0x80, 0x01]);
    assert_eq!(varint_of(0xFFFF_FFFF), vec![0xFF, 0xFF, 0xFF, 0xFF, 0x0F]);
}

#[test]
fn varint_known_decodings() {
    assert_eq!(read_varint(&[0x00], 0), Ok((0, 1)));
    assert_eq!(read_varint(&[0xAC, 0x02], 0), Ok((300, 2)));
    assert_eq!(read_varint(&[0x7F], 0), Ok((127, 1)));
    assert_eq!(read_varint(&[0x80, 0x01], 0), Ok((128, 2)));
}

#[test]
fn varint_round_trip_samples() {
    let samples: [usize; 9] = [0, 1, 127, 128, 255, 300, 16_384, 2_097_151, 0xFFFF_FFFF];
    for v in samples {
        let mut buf = varint_of(v);
        let len = buf.len();
        buf.extend_from_slice(&[0xAA, 0xBB]);
        assert_eq!(read_varint(&buf, 0), Ok((v as u64, len)));
    }
}

#[test]
fn varint_keeps_low_32_bits() {
    let v: u64 = 0x1_0000_0005;
    assert_eq!(varint_of(v as usize), vec![0x05]);
}

#[test]
fn varint_six_continuation_bytes_is_invalid() {
    let bytes = [0x80, 0x81, 0xFF, 0x80, 0x80, 0x80];
    assert_eq!(read_varint(&bytes, 0), Err(ProtocolError::InvalidVarInt));
}

#[test]
fn varint_sixth_byte_is_refused_even_when_final() {
    let bytes = [0x80, 0x80, 0x80, 0x80, 0x80, 0x00];
    assert_eq!(read_varint(&bytes, 0), Err(ProtocolError::InvalidVarInt));
}

#[test]
fn varint_five_bytes_take_full_groups() {
    let bytes = [0xFF, 0xFF, 0xFF, 0xFF, 0x7F];
    assert_eq!(read_varint(&bytes, 0), Ok((0x7_FFFF_FFFF, 5)));
}

#[test]
fn varint_short_input_is_io() {
    assert_eq!(read_varint(&[], 0), Err(ProtocolError::Io));
    assert_eq!(read_varint(&[0x80], 0), Err(ProtocolError::Io));
    assert_eq!(read_varint(&[0x80, 0x80, 0x80, 0x80, 0x80], 0), Err(ProtocolError::Io));
}

#[test]
fn varint_reads_from_position() {
    assert_eq!(read_varint(&[0x05, 0xAC, 0x02], 1), Ok((300, 2)));
    assert_eq!(read_varint(&[0x05], 1), Err(ProtocolError::Io));
}

#[test]
fn string_hello_encoding() {
    let mut buf = Vec::new();
    write_string(&mut buf, "hello");
    assert_eq!(buf, vec![0x05, b'h', b'e', b'l', b'l', b'o']);
    let (s, n) = read_string(&buf, 0).unwrap();
    assert_eq!(s, "hello");
    assert_eq!(n, 6);
}

#[test]
fn string_round_trip_samples() {
    for text in ["", "a", "héllo wörld", "日本語", "emoji \u{1F600}"] {
        let mut buf = Vec::new();
        write_string(&mut buf, text);
        let len = buf.len();
        buf.push(0x42);
        let (s, n) = read_string(&buf, 0).unwrap();
        assert_eq!(s, text);
        assert_eq!(n, len);
    }
}

#[test]
fn string_length_counts_bytes() {
    let mut buf = Vec::new();
    write_string(&mut buf, "é");
    assert_eq!(buf, vec![0x02, 0xC3, 0xA9]);
}

#[test]
fn string_invalid_utf8_is_refused() {
    let bytes = [0x02, 0xC3, 0x28];
    assert_eq!(read_string(&bytes, 0), Err(ProtocolError::InvalidResponseBody));
}

#[test]
fn string_short_input_is_io() {
    assert_eq!(read_string(&[0x05, b'h', b'i'], 0), Err(ProtocolError::Io));
    assert_eq!(read_string(&[], 0), Err(ProtocolError::Io));
}

#[test]
fn string_with_bad_length_is_invalid_varint() {
    let bytes = [0xFF, 0xFF, 0xFF, 0xFF, 0xFF, 0xFF, b'x'];
    assert_eq!(read_string(&bytes, 0), Err(ProtocolError::InvalidVarInt));
}

#[test]
fn u16_big_endian() {
    let mut buf = Vec::new();
    write_u16_be(&mut buf, 25565);
    assert_eq!(buf, vec![0x63, 0xDD]);
    assert_eq!(read_u16_be(&buf, 0), Ok((25565, 2)));
    assert_eq!(read_u16_be(&buf, 1), Err(ProtocolError::Io));
}

#[test]
fn u64_big_endian() {
    let mut buf = Vec::new();
    write_u64_be(&mut buf, 0x0102_0304_0506_0708);
    assert_eq!(buf, vec![1, 2, 3, 4, 5, 6, 7, 8]);
    assert_eq!(read_u64_be(&buf, 0), Ok((0x0102_0304_0506_0708, 8)));
    let mut max = Vec::new();
    write_u64_be(&mut max, u64::MAX);
    assert_eq!(read_u64_be(&max, 0), Ok((u64::MAX, 8)));
    assert_eq!(read_u64_be(&buf[1..], 0), Err(ProtocolError::Io));
}
