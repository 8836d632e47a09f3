use bytes::BytesMut;
use minerider::error::MineRiderError;
use minerider::minecraft::handshake::{login_handshake, PacketSetProtocol, NEXT_STATE_LOGIN};
use minerider::protocol::buffer::{
    pack_position, unpack_position, PacketReader, PacketWriter, MAX_STRING_CHARS,
};
use minerider::protocol::packet::RawPacket;
use minerider::protocol::varint::{read_varint, varint_size, write_varint};
use minerider::protocol::varlong::{read_varlong, write_varlong};

#[test]
fn primitive_roundtrips() {
    let mut w = PacketWriter::new();
    w.put_u8(0xAB);
    w.put_bool(true);
    w.put_bool(false);
    w.put_i16(-12345);
    w.put_u16(54321);
    w.put_i32(-2_000_000_000);
    w.put_i64(-9_000_000_000_000);
    w.put_u64(18_000_000_000_000_000_000);
    w.put_f32((-1.5f32).to_bits());
    w.put_f64((2.75f64).to_bits());
    w.put_varint(-1);
    w.put_varlong(i64::MIN);
    w.put_string("héllo §").unwrap();
    w.put_bytes(&[1, 2, 3]);
    w.put_byte_array(&[9, 8, 7, 6]);
    w.put_uuid(0x00112233445566778899AABBCCDDEEFF);
    w.put_position(-14, 64, 20_000_000);

    let buf = w.into_inner();
    let mut r = PacketReader::new(&buf);
    assert_eq!(r.get_u8().unwrap(), 0xAB);
    assert!(r.get_bool().unwrap());
    assert!(!r.get_bool().unwrap());
    assert_eq!(r.get_i16().unwrap(), -12345);
    assert_eq!(r.get_u16().unwrap(), 54321);
    assert_eq!(r.get_i32().unwrap(), -2_000_000_000);
    assert_eq!(r.get_i64().unwrap(), -9_000_000_000_000);
    assert_eq!(r.get_u64().unwrap(), 18_000_000_000_000_000_000);
    assert_eq!(f32::from_bits(r.get_f32().unwrap()), -1.5);
    assert_eq!(f64::from_bits(r.get_f64().unwrap()), 2.75);
    assert_eq!(r.get_varint().unwrap(), -1);
    assert_eq!(r.get_varlong().unwrap(), i64::MIN);
    assert_eq!(r.read_string().unwrap(), "héllo §");
    assert_eq!(r.read_bytes(3).unwrap(), &[1, 2, 3]);
    assert_eq!(r.read_byte_array().unwrap(), &[9, 8, 7, 6]);
    assert_eq!(r.read_uuid().unwrap(), 0x00112233445566778899AABBCCDDEEFF);
    assert_eq!(r.read_position().unwrap(), (-14, 64, 20_000_000));
    assert!(r.is_empty());
}

#[test]
fn string_too_long_errors() {
    let s = "a".repeat(MAX_STRING_CHARS + 1);
    let mut w = PacketWriter::new();
    assert!(matches!(w.put_string(&s), Err(MineRiderError::Protocol(_))));

    // Reading: valid UTF-8 but too many chars.
    let mut w = PacketWriter::new();
    w.put_varint((MAX_STRING_CHARS + 1) as i32);
    w.put_bytes(&s.into_bytes());
    let buf = w.into_inner();
    let mut r = PacketReader::new(&buf);
    assert!(matches!(r.read_string(), Err(MineRiderError::Protocol(_))));
}

#[test]
fn invalid_utf8_string_errors() {
    let mut w = PacketWriter::new();
    w.put_varint(2);
    w.put_bytes(&[0xFF, 0xFE]);
    let buf = w.into_inner();
    let mut r = PacketReader::new(&buf);
    assert!(matches!(r.read_string(), Err(MineRiderError::Protocol(_))));
}

#[test]
fn short_reads_error_not_panic() {
    let data = [0x01, 0x02];
    let mut r = PacketReader::new(&data);
    assert!(matches!(r.get_i64(), Err(MineRiderError::Protocol(_))));
    assert!(matches!(r.read_bytes(5), Err(MineRiderError::Protocol(_))));
    assert!(matches!(r.read_uuid(), Err(MineRiderError::Protocol(_))));
    assert!(matches!(r.read_position(), Err(MineRiderError::Protocol(_))));
    // Cursor must not have moved out of bounds.
    assert_eq!(r.remaining(), 2);

    // Length prefixes that promise more bytes than remain.
    let mut w = PacketWriter::new();
    w.put_varint(10);
    w.put_bytes(&[0x01, 0x02]);
    let buf = w.into_inner();
    let mut r = PacketReader::new(&buf);
    assert!(matches!(r.read_string(), Err(MineRiderError::Protocol(_))));
    let mut r = PacketReader::new(&buf);
    assert!(matches!(r.read_byte_array(), Err(MineRiderError::Protocol(_))));
}

#[test]
fn position_pack_unpack() {
    for (x, y, z) in [
        (0, 0, 0),
        (-14, 64, 20_000_000),
        (33_554_431, 2047, 33_554_431),
        (-33_554_432, -2048, -33_554_432),
        (1, -1, 2),
    ] {
        let packed = pack_position(x, y, z);
        assert_eq!(unpack_position(packed), (x, y, z));
    }
}

#[test]
fn negative_array_lengths_error() {
    let mut w = PacketWriter::new();
    w.put_varint(-1);
    let buf = w.into_inner();
    let mut r = PacketReader::new(&buf);
    assert!(matches!(r.read_byte_array(), Err(MineRiderError::Protocol(_))));
}

#[test]
fn remaining_tracking() {
    let mut w = PacketWriter::new();
    w.put_u8(1);
    w.put_u8(2);
    w.put_u8(3);
    let buf = w.freeze();
    let mut r = PacketReader::new(&buf);
    assert!(!r.is_empty());
    assert_eq!(r.remaining(), 3);
    let _ = r.get_u8().unwrap();
    assert_eq!(r.remaining(), 2);
    r.skip_all();
    assert!(r.is_empty());
}

#[test]
fn a_short_read_names_both_lengths() {
    let data = [0x01, 0x02];
    let mut r = PacketReader::new(&data);
    match r.get_i32() {
        Err(MineRiderError::Protocol(text)) => {
            assert!(text.contains('4') && text.contains('2'), "{text}")
        }
        other => panic!("expected a protocol error, got {other:?}"),
    }
}

#[test]
fn written_bytes_can_be_copied_out() {
    let mut w = PacketWriter::new();
    w.put_u16(0x0102);
    w.put_bytes(&[3, 4]);
    assert_eq!(w.to_vec(), vec![1, 2, 3, 4]);
}

#[test]
fn wide_numbers_are_big_endian() {
    let mut w = PacketWriter::new();
    w.put_i16(-2);
    w.put_i32(-2);
    w.put_i64(-2);
    w.put_u64(2);
    w.put_f32(0x4049_0FDB);
    let bytes = w.to_vec();
    assert_eq!(&bytes[..2], &[0xFF, 0xFE]);
    assert_eq!(&bytes[2..6], &[0xFF, 0xFF, 0xFF, 0xFE]);
    assert_eq!(&bytes[6..14], &[0xFF, 0xFF, 0xFF, 0xFF, 0xFF, 0xFF, 0xFF, 0xFE]);
    assert_eq!(&bytes[14..22], &[0, 0, 0, 0, 0, 0, 0, 2]);
    assert_eq!(&bytes[22..], &[0x40, 0x49, 0x0F, 0xDB]);
}

fn roundtrip_varint(v: i32) {
    let mut buf = BytesMut::new();
    write_varint(&mut buf, v);
    assert_eq!(buf.len(), varint_size(v));
    let mut r = PacketReader::new(&buf);
    assert_eq!(read_varint(&mut r).unwrap(), v);
    assert!(r.is_empty());
}

#[test]
fn roundtrips() {
    for v in [0, 1, -1, i32::MAX, i32::MIN, 2_147_483_647, 255, 100_000, -100_000] {
        roundtrip_varint(v);
    }
    // Deterministic pseudo-random sweep.
    let mut state: u32 = 0x1234_5678;
    for _ in 0..256 {
        state = state.wrapping_mul(1_664_525).wrapping_add(1_013_904_223);
        roundtrip_varint(state as i32);
    }
}

#[test]
fn exact_encodings() {
    let cases: &[(i32, &[u8])] = &[
        (0, &[0x00]),
        (1, &[0x01]),
        (2, &[0x02]),
        (127, &[0x7F]),
        (128, &[0x80, 0x01]),
        (255, &[0xFF, 0x01]),
        (-1, &[0xFF, 0xFF, 0xFF, 0xFF, 0x0F]),
        (2_147_483_647, &[0xFF, 0xFF, 0xFF, 0xFF, 0x07]),
        (-2_147_483_648, &[0x80, 0x80, 0x80, 0x80, 0x08]),
    ];
    for (v, bytes) in cases {
        let mut buf = BytesMut::new();
        write_varint(&mut buf, *v);
        assert_eq!(&buf[..], *bytes, "encoding of {v}");
    }
}

#[test]
fn rejects_six_byte_varint() {
    let data = [0x80, 0x80, 0x80, 0x80, 0x80, 0x01];
    let mut r = PacketReader::new(&data);
    assert!(matches!(
        read_varint(&mut r),
        Err(MineRiderError::Protocol(_))
    ));
}

#[test]
fn truncated_varint_errors() {
    let data = [0x80, 0x80];
    let mut r = PacketReader::new(&data);
    assert!(matches!(
        read_varint(&mut r),
        Err(MineRiderError::Protocol(_))
    ));
}

#[test]
fn size_boundaries() {
    assert_eq!(varint_size(0), 1);
    assert_eq!(varint_size(127), 1);
    assert_eq!(varint_size(128), 2);
    assert_eq!(varint_size(-1), 5);
    assert_eq!(varint_size(i32::MIN), 5);
    assert_eq!(varint_size(i32::MAX), 5);
}

#[test]
fn varlongs_round_trip() {
    for v in [0, 1, -1, i64::MAX, i64::MIN, 1 << 40, -(1 << 40)] {
        let mut buf = BytesMut::new();
        write_varlong(&mut buf, v);
        let mut r = PacketReader::new(&buf);
        assert_eq!(read_varlong(&mut r).unwrap(), v);
        assert!(r.is_empty());
    }
    let mut buf = BytesMut::new();
    write_varlong(&mut buf, -1);
    assert_eq!(buf.len(), 10);
}

#[test]
fn constructors() {
    let p = RawPacket::empty(0x00);
    assert_eq!(p.id, 0);
    assert!(p.payload.is_empty());

    let p = RawPacket::build(0x2A, |mut w| {
        w.put_i32(7);
        w.put_string("hi").unwrap();
        w
    });
    assert_eq!(p.id, 0x2A);
    let mut r = PacketReader::new(&p.payload);
    assert_eq!(r.get_i32().unwrap(), 7);
    assert_eq!(r.read_string().unwrap(), "hi");
}

#[test]
fn encode_fields() {
    let hs = PacketSetProtocol {
        protocol_version: 769,
        server_host: "localhost".to_string(),
        server_port: 25565,
        next_state: NEXT_STATE_LOGIN,
    };
    let mut w = PacketWriter::new();
    hs.encode(&mut w).unwrap();
    let payload = w.freeze();
    let mut r = PacketReader::new(&payload);
    assert_eq!(r.get_varint().unwrap(), 769);
    assert_eq!(r.read_string().unwrap(), "localhost");
    assert_eq!(r.get_u16().unwrap(), 25565);
    assert_eq!(r.get_varint().unwrap(), 2);
    assert!(r.is_empty());
}

#[test]
fn roundtrip() {
    let hs = PacketSetProtocol {
        protocol_version: 769,
        server_host: "example.org".to_string(),
        server_port: 25565,
        next_state: NEXT_STATE_LOGIN,
    };
    let mut w = PacketWriter::new();
    hs.encode(&mut w).unwrap();
    let payload = w.freeze();
    let mut r = PacketReader::new(&payload);
    let back = PacketSetProtocol::decode(&mut r).unwrap();
    assert_eq!(hs.protocol_version, back.protocol_version);
    assert_eq!(hs.server_host, back.server_host);
    assert_eq!(hs.server_port, back.server_port);
    assert_eq!(hs.next_state, back.next_state);
}

#[test]
fn a_host_too_long_for_a_string_is_refused() {
    let hs = login_handshake(769, &"a".repeat(MAX_STRING_CHARS + 1), 25565);
    assert_eq!(hs.next_state, 2);
    let mut w = PacketWriter::new();
    assert!(matches!(hs.encode(&mut w), Err(MineRiderError::Protocol(_))));
}

#[test]
fn varints_take_the_fewest_bytes() {
    for v in [0, 1, 127, 128, 16383, 16384, 2097151, 2097152, 268435455, 268435456, i32::MAX] {
        let mut w = PacketWriter::new();
        w.put_varint(v);
        let bytes = w.to_vec();
        assert_eq!(bytes.len(), varint_size(v));
        assert!(bytes.len() == 1 || bytes[bytes.len() - 1] != 0);
    }
    assert_eq!(varint_size(-1), 5);
    assert_eq!(varint_size(i32::MIN), 5);
}
