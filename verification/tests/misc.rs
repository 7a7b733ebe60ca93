use mc_client::compression::{decode_reader, decompress};
use mc_client::cursor::IoErrorKind;
use mc_client::endian::{get_i16, get_i32, get_u16, get_uint, put_i64, put_u16, put_uint};
use mc_client::game::CompressionStatus;
use mc_client::hash::two_complement;
use mc_client::packets::{animation, chat, player, pos, pos_and_looking};
use mc_client::protocol::write_packet_fields;
use mc_client::structs::{Entity, Location};
use mc_client::values::RawPacketValue;
use mc_client::varint::read_var_i32;
use mc_client::world::{ChunkBlockID, ChunkData};
use std::io::Write;

fn zlib(data: &[u8]) -> Vec<u8> {
    let mut encoder =
        flate2::write::ZlibEncoder::new(Vec::new(), flate2::Compression::default());
    encoder.write_all(data).unwrap();
    encoder.finish().unwrap()
}

fn negate(bytes: &[u8]) -> Vec<u8> {
    let mut v = bytes.to_vec();
    two_complement(&mut v);
    v
}

#[test]
fn chat_frame() {
    assert_eq!(chat("hi"), vec![4, 0x01, 2, b'h', b'i']);
    assert_eq!(chat(""), vec![2, 0x01, 0]);
}

#[test]
fn chat_frame_of_a_long_message_counts_every_byte_after_its_length() {
    // 127 bytes: the last message whose own length takes one byte
    let frame = chat(&"m".repeat(127));
    assert_eq!(&frame[..4], &[0x81, 0x01, 0x01, 0x7F]);
    assert_eq!(frame.len(), 2 + 129);
    // 128 bytes: the message's length takes two bytes, and the frame counts them
    let frame = chat(&"m".repeat(128));
    assert_eq!(&frame[..5], &[0x83, 0x01, 0x01, 0x80, 0x01]);
    assert_eq!(frame.len(), 2 + 131);
    let frame = chat(&"m".repeat(130));
    assert_eq!(&frame[..5], &[0x85, 0x01, 0x01, 0x82, 0x01]);
    assert_eq!(frame.len(), 2 + 133);
    // 20000 bytes: three bytes of length for the message and for the frame
    let frame = chat(&"m".repeat(20000));
    assert_eq!(&frame[..7], &[0xA4, 0x9C, 0x01, 0x01, 0xA0, 0x9C, 0x01]);
    assert_eq!(frame.len(), 3 + 20004);
}

#[test]
fn chat_frame_is_the_frame_of_the_chat_packet() {
    for len in [0usize, 1, 126, 127, 128, 129, 16380, 16384, 70000] {
        let message = "x".repeat(len);
        let mut expected = Vec::new();
        assert_eq!(
            write_packet_fields(
                &mut expected,
                0x01,
                &[RawPacketValue::String(message.clone())],
                &CompressionStatus::Disabled
            ),
            Ok(())
        );
        let frame = chat(&message);
        assert_eq!(frame, expected);
        let (declared, n) = read_var_i32(&frame).unwrap();
        assert_eq!(declared as usize, frame.len() - n);
    }
}

#[test]
fn chat_frame_counts_bytes_not_characters() {
    assert_eq!(chat("\u{e9}"), vec![4, 0x01, 2, 0xC3, 0xA9]);
}

#[test]
fn animation_frame() {
    assert_eq!(animation(), vec![1, 0x0A]);
}

#[test]
fn player_frame() {
    assert_eq!(player(true), vec![2, 0x03, 1]);
    assert_eq!(player(false), vec![2, 0x03, 0]);
}

#[test]
fn pos_frame() {
    let frame = pos(1.0f64.to_bits(), 2.0f64.to_bits(), (-3.0f64).to_bits(), true);
    let mut expected = vec![26, 0x04];
    expected.extend_from_slice(&1.0f64.to_be_bytes());
    expected.extend_from_slice(&2.0f64.to_be_bytes());
    expected.extend_from_slice(&(-3.0f64).to_be_bytes());
    expected.push(1);
    assert_eq!(frame, expected);
}

#[test]
fn pos_and_looking_frame() {
    let frame = pos_and_looking(
        1.0f64.to_bits(),
        2.0f64.to_bits(),
        3.0f64.to_bits(),
        90.0f32.to_bits(),
        (-10.0f32).to_bits(),
        false,
    );
    let mut expected = vec![34, 0x06];
    expected.extend_from_slice(&1.0f64.to_be_bytes());
    expected.extend_from_slice(&2.0f64.to_be_bytes());
    expected.extend_from_slice(&3.0f64.to_be_bytes());
    expected.extend_from_slice(&90.0f32.to_be_bytes());
    expected.extend_from_slice(&(-10.0f32).to_be_bytes());
    expected.push(0);
    assert_eq!(frame, expected);
}

#[test]
fn location_from_long_splits_the_word() {
    let word: u64 = (1 << 38) | (2 << 26) | 3;
    assert_eq!(Location::from_long(word), Location { x: 1, y: 2, z: 3 });
    assert_eq!(Location::from_long(0), Location { x: 0, y: 0, z: 0 });
}

#[test]
fn location_from_long_extends_each_field_by_its_sign() {
    assert_eq!(
        Location::from_long(0x7FFF_FFDF_FE00_0000),
        Location { x: 33554431, y: 2047, z: -33554432 }
    );
    assert_eq!(Location::from_long(u64::MAX), Location { x: -1, y: -1, z: -1 });
    assert_eq!(Location::from_long(1 << 63), Location { x: -33554432, y: 0, z: 0 });
    assert_eq!(Location::from_long(1 << 37), Location { x: 0, y: -2048, z: 0 });
    assert_eq!(Location::from_long(1 << 25), Location { x: 0, y: 0, z: -33554432 });
    assert_eq!(
        Location::from_long((1 << 25) - 1),
        Location { x: 0, y: 0, z: 33554431 }
    );
}

#[test]
fn location_from_long_reads_what_the_position_codec_writes() {
    let places = [
        (1i64, 2i64, 3i64),
        (-1, -1, -1),
        ((1 << 25) - 1, (1 << 11) - 1, -(1 << 25)),
        (-(1 << 25), -(1 << 11), (1 << 25) - 1),
        (0, 0, 0),
        (-12345, 64, 54321),
    ];
    for (x, y, z) in places {
        let mut bytes = Vec::new();
        assert_eq!(RawPacketValue::Position(x, y, z).serialize(&mut bytes), Ok(()));
        let mut word = [0u8; 8];
        word.copy_from_slice(&bytes);
        assert_eq!(Location::from_long(u64::from_be_bytes(word)), Location { x, y, z });
    }
}

#[test]
fn entity_holds_its_place() {
    let e = Entity { id: 7, position: Location::from_long(5) };
    assert_eq!(e.id, 7);
    assert_eq!(e.position.z, 5);
}

#[test]
fn a_new_chunk_section_is_all_zero() {
    let data = ChunkData::new();
    for x in 0..16 {
        for y in 0..16 {
            for z in 0..16 {
                assert_eq!(data.get((x, y, z)), Some(ChunkBlockID(0)));
            }
        }
    }
    assert_eq!(data.get((16, 0, 0)), None);
    assert_eq!(data.get((0, 16, 0)), None);
    assert_eq!(data.get((0, 0, 16)), None);
}

#[test]
fn block_id_from_a_byte() {
    assert_eq!(ChunkBlockID::from(9), ChunkBlockID(9));
    let id: ChunkBlockID = 0.into();
    assert_eq!(id.0, 0);
}

#[test]
fn two_complement_negates() {
    assert_eq!(negate(&[0x00, 0x01]), vec![0xFF, 0xFF]);
    assert_eq!(negate(&[0xFF, 0xFF]), vec![0x00, 0x01]);
    assert_eq!(negate(&[0x12, 0x34]), vec![0xED, 0xCC]);
    assert_eq!(negate(&[0x01, 0x00]), vec![0xFF, 0x00]);
    assert_eq!(negate(&[0x80, 0x00, 0x00]), vec![0x80, 0x00, 0x00]);
}

#[test]
fn two_complement_of_zero_is_zero() {
    assert_eq!(negate(&[0x00, 0x00, 0x00]), vec![0x00, 0x00, 0x00]);
    assert_eq!(negate(&[0x00]), vec![0x00]);
    assert_eq!(negate(&[]), Vec::<u8>::new());
}

#[test]
fn two_complement_twice_is_the_identity() {
    for bytes in [vec![0x7C, 0x9D, 0x5B, 0x00], vec![0xFF], vec![0x00, 0x00, 0x01], vec![0x80]] {
        assert_eq!(negate(&negate(&bytes)), bytes);
    }
}

#[test]
fn decompress_reads_a_zlib_stream() {
    let data = b"the quick brown fox jumps over the lazy dog".to_vec();
    assert_eq!(decompress(&zlib(&data)), Some(data));
    assert_eq!(decompress(&zlib(&[])), Some(vec![]));
}

#[test]
fn decompress_refuses_what_is_no_stream() {
    assert_eq!(decompress(&[1, 2, 3, 4]), None);
    let stream = zlib(b"some data that is long enough to be cut");
    assert_eq!(decompress(&stream[..stream.len() / 2]), None);
}

#[test]
fn decode_reader_reads_text() {
    assert_eq!(decode_reader(&zlib("gr\u{fc}n".as_bytes())), Ok("gr\u{fc}n".to_string()));
    assert_eq!(decode_reader(&zlib(&[b'a', 0xFF])), Err(IoErrorKind::InvalidData));
    assert_eq!(decode_reader(&[0, 1, 2]), Err(IoErrorKind::InvalidInput));
}

#[test]
fn big_endian_numbers() {
    let mut buf = Vec::new();
    put_u16(&mut buf, 0x0102);
    put_i64(&mut buf, -2);
    put_uint(&mut buf, 0x0A0B0C, 3);
    assert_eq!(
        buf,
        vec![1, 2, 0xFF, 0xFF, 0xFF, 0xFF, 0xFF, 0xFF, 0xFF, 0xFE, 0x0A, 0x0B, 0x0C]
    );
    assert_eq!(get_u16(&buf), 0x0102);
    assert_eq!(get_i16(&[0xFF, 0xFE, 0x00]), -2);
    assert_eq!(get_i32(&[0x80, 0, 0, 0]), i32::MIN);
    assert_eq!(get_uint(&[0x0A, 0x0B, 0x0C, 0x0D], 3), 0x0A0B0C);
    assert_eq!(get_uint(&[0xFF; 16], 16), u128::MAX);
}
