use mc_client::compression::decompress;
use mc_client::cursor::{ByteCursor, IoErrorKind};
use mc_client::game::{CompressionStatus, ConnectionState, MinecraftConnection, ServerAddress};
use mc_client::packet::Packet;
use mc_client::protocol::{
    encode_payload, read_body, read_payload, read_values_from_template, write_deflated_frame,
    write_packet_fields, Inbound, PacketError,
};
use mc_client::registry::{Direction, PacketType};
use mc_client::values::{RawPacketValue, RawPacketValueType};
use mc_client::varint::read_var_i32;

fn connection(state: ConnectionState, compression: CompressionStatus) -> MinecraftConnection {
    let mut c = MinecraftConnection::new(
        ServerAddress { ip: 0x7F000001, port: 25565 },
        "steve".to_string(),
    );
    c.state = state;
    c.compression = compression;
    c
}

fn all_packets() -> Vec<Packet> {
    vec![
        Packet::ClientHandshake { host_address: "mc.example.org".to_string(), port: 25565 },
        Packet::ClientJoin { player_name: "steve".to_string() },
        Packet::ClientKeepAlive { magic: -42 },
        Packet::ClientPlayerPosition {
            x: 1.5f64.to_bits(),
            y: 64.0f64.to_bits(),
            z: (-3.25f64).to_bits(),
            onground: true,
        },
        Packet::ClientPlayerLook {
            yaw: 90.0f32.to_bits(),
            pitch: (-45.5f32).to_bits(),
            onground: false,
        },
        Packet::ClientChat { message: "hello, world".to_string() },
        Packet::ClientHeldItemChange { slot: 5 },
        Packet::ClientPlayerPositionAndLook {
            x: 1.0f64.to_bits(),
            y: 2.0f64.to_bits(),
            z: 3.0f64.to_bits(),
            yaw: 4.0f32.to_bits(),
            pitch: 5.0f32.to_bits(),
            onground: true,
        },
        Packet::ServerCompressionLevelSet { compression_level: 256 },
        Packet::ServerLoginSuccess {
            uuid: "069a79f4-44e9-4726-a5be-fca90e38aaf5".to_string(),
            name: "Notch".to_string(),
        },
        Packet::ServerEncryptionRequest {
            serverid: "".to_string(),
            pubkey: vec![1, 2, 3, 4, 5],
            verifytoken: vec![9, 8, 7, 6],
        },
        Packet::ServerKeepAlive { magic: 0x0123456789ABCDEF },
        Packet::ServerWorldTimeUpdate { age: 100, time: -6000 },
        Packet::ServerDisconnectPacket { reason: "{\"text\":\"bye\"}".to_string() },
        Packet::ServerChatPacket { message: "{\"text\":\"hi\"}".to_string(), position: 1 },
        Packet::ServerJoinGame {
            entity_id: 1234,
            gamemode: 1,
            dimension: -1,
            difficulty: 2,
            max_players: 20,
            level_type: "default".to_string(),
            reduced_debug_info: false,
        },
        Packet::ServerPlayerPositionAndLook {
            x: 8.5f64.to_bits(),
            y: 65.0f64.to_bits(),
            z: 8.5f64.to_bits(),
            yaw: 0.0f32.to_bits(),
            pitch: 0.0f32.to_bits(),
            flags: 0,
            teleportid: 7,
        },
    ]
}

fn decode_as(frame: &[u8], packet: &Packet, compression: CompressionStatus) -> (Result<Packet, PacketError>, usize) {
    let ty = packet.ty();
    let mut cursor = ByteCursor::new(frame.to_vec());
    let r = Packet::deserialize_as(&mut cursor, ty.state(), compression, ty.direction());
    (r, cursor.position)
}

#[test]
fn frame_round_trip_without_compression() {
    for packet in all_packets() {
        let c = connection(packet.ty().state(), CompressionStatus::Disabled);
        let frame = packet.clone().serialize(&c).unwrap();
        let mut longer = frame.clone();
        longer.extend_from_slice(&[0xDE, 0xAD]);
        assert_eq!(
            decode_as(&longer, &packet, CompressionStatus::Disabled),
            (Ok(packet), frame.len())
        );
    }
}

#[test]
fn frame_round_trip_below_the_threshold() {
    for packet in all_packets() {
        let compression = CompressionStatus::Enabled(1000);
        let c = connection(packet.ty().state(), compression);
        let frame = packet.clone().serialize(&c).unwrap();
        assert_eq!(decode_as(&frame, &packet, compression), (Ok(packet), frame.len()));
    }
}

#[test]
fn frame_round_trip_above_the_threshold() {
    for packet in all_packets() {
        let compression = CompressionStatus::Enabled(0);
        let c = connection(packet.ty().state(), compression);
        let frame = packet.clone().serialize(&c).unwrap();
        assert_eq!(decode_as(&frame, &packet, compression), (Ok(packet), frame.len()));
    }
}

#[test]
fn deserialize_reads_what_the_server_sends() {
    let packet = Packet::ServerKeepAlive { magic: 77 };
    let c = connection(ConnectionState::Play, CompressionStatus::Disabled);
    let frame = packet.clone().serialize(&c).unwrap();
    assert_eq!(frame, vec![9, 0x20, 0, 0, 0, 0, 0, 0, 0, 77]);
    let mut cursor = ByteCursor::new(frame);
    assert_eq!(Packet::deserialize(&mut cursor, &c), Ok(packet));
    assert_eq!(cursor.position, 10);
}

#[test]
fn deserialize_reads_frame_after_frame() {
    let c = connection(ConnectionState::Play, CompressionStatus::Disabled);
    let first = Packet::ServerKeepAlive { magic: 1 };
    let second = Packet::ServerChatPacket { message: "x".to_string(), position: 2 };
    let mut data = first.clone().serialize(&c).unwrap();
    let first_len = data.len();
    data.extend(second.clone().serialize(&c).unwrap());
    let total = data.len();
    let mut cursor = ByteCursor::new(data);
    assert_eq!(Packet::deserialize(&mut cursor, &c), Ok(first));
    assert_eq!(cursor.position, first_len);
    assert_eq!(Packet::deserialize(&mut cursor, &c), Ok(second));
    assert_eq!(cursor.position, total);
    assert_eq!(
        Packet::deserialize(&mut cursor, &c),
        Err(PacketError::DeserializeIOError(IoErrorKind::UnexpectedEof))
    );
    assert_eq!(cursor.position, total);
}

#[test]
fn handshake_frame_is_bit_exact() {
    let c = connection(ConnectionState::Login, CompressionStatus::Disabled);
    let frame = Packet::ClientHandshake { host_address: "localhost".to_string(), port: 25565 }
        .serialize(&c)
        .unwrap();
    let mut expected = vec![16, 0x00, 0xF2, 0x03, 9];
    expected.extend_from_slice(b"localhost");
    expected.extend_from_slice(&[0x63, 0xDD, 0x02]);
    assert_eq!(frame, expected);
}

#[test]
fn join_frame_is_bit_exact() {
    let c = connection(ConnectionState::Login, CompressionStatus::Disabled);
    let frame = Packet::ClientJoin { player_name: "owow".to_string() }.serialize(&c).unwrap();
    assert_eq!(frame, vec![6, 0x00, 4, b'o', b'w', b'o', b'w']);
}

#[test]
fn threshold_not_exceeded_gives_a_zero_and_the_raw_payload() {
    let payload = vec![0x0F, 0, 0, 0, 0, 0, 0, 0, 5];
    for threshold in [9, 10, 1000, i32::MAX] {
        let c = connection(ConnectionState::Play, CompressionStatus::Enabled(threshold));
        let frame = Packet::ClientKeepAlive { magic: 5 }.serialize(&c).unwrap();
        let mut expected = vec![10, 0];
        expected.extend_from_slice(&payload);
        assert_eq!(frame, expected);
    }
}

#[test]
fn threshold_exceeded_gives_the_size_and_a_zlib_stream() {
    let payload = vec![0x0F, 0, 0, 0, 0, 0, 0, 0, 5];
    for threshold in [8, 0, -1, i32::MIN] {
        let c = connection(ConnectionState::Play, CompressionStatus::Enabled(threshold));
        let frame = Packet::ClientKeepAlive { magic: 5 }.serialize(&c).unwrap();
        let (len, n) = read_var_i32(&frame).unwrap();
        assert_eq!(len as usize, frame.len() - n);
        let body = &frame[n..];
        assert_eq!(read_var_i32(body), Ok((9, 1)));
        assert_eq!(decompress(&body[1..]), Some(payload.clone()));
    }
}

#[test]
fn a_long_payload_shrinks_when_deflated() {
    let message = "a".repeat(5000);
    let c = connection(ConnectionState::Play, CompressionStatus::Enabled(256));
    let packet = Packet::ClientChat { message };
    let frame = packet.clone().serialize(&c).unwrap();
    assert!(frame.len() < 200);
    let (len, n) = read_var_i32(&frame).unwrap();
    assert_eq!(len as usize, frame.len() - n);
    let (size, m) = read_var_i32(&frame[n..]).unwrap();
    assert_eq!(size, 5003);
    let payload = decompress(&frame[n + m..]).unwrap();
    assert_eq!(payload.len(), 5003);
    assert_eq!(&payload[..3], &[0x03, 0x88, 0x27]);
    assert_eq!(
        decode_as(&frame, &packet, CompressionStatus::Enabled(256)),
        (Ok(packet), frame.len())
    );
}

#[test]
fn write_packet_fields_appends_to_the_buffer() {
    let mut buf = vec![0xAB];
    let fields = [RawPacketValue::Short(5)];
    assert_eq!(
        write_packet_fields(&mut buf, 0x23, &fields, &CompressionStatus::Disabled),
        Ok(())
    );
    assert_eq!(buf, vec![0xAB, 3, 0x23, 0, 5]);
    assert_eq!(
        write_packet_fields(&mut buf, 0x23, &fields, &CompressionStatus::Enabled(3)),
        Ok(())
    );
    assert_eq!(buf, vec![0xAB, 3, 0x23, 0, 5, 4, 0, 0x23, 0, 5]);
}

#[test]
fn write_packet_fields_with_no_fields() {
    let mut buf = Vec::new();
    assert_eq!(write_packet_fields(&mut buf, 0x0A, &[], &CompressionStatus::Disabled), Ok(()));
    assert_eq!(buf, vec![1, 0x0A]);
}

#[test]
fn encode_payload_is_the_id_and_the_fields() {
    let fields = [
        RawPacketValue::VarInt(498),
        RawPacketValue::String("h".to_string()),
        RawPacketValue::UShort(1),
        RawPacketValue::VarInt(2),
    ];
    assert_eq!(encode_payload(0, &fields), Ok(vec![0, 0xF2, 0x03, 1, b'h', 0, 1, 2]));
    assert_eq!(encode_payload(300, &[]), Ok(vec![0xAC, 0x02]));
}

#[test]
fn write_deflated_frame_lays_out_length_size_and_stream() {
    let mut buf = vec![1];
    assert_eq!(write_deflated_frame(&mut buf, 300, &[7, 8, 9]), Ok(()));
    assert_eq!(buf, vec![1, 5, 0xAC, 0x02, 7, 8, 9]);
}

#[test]
fn read_values_from_template_reads_in_order() {
    let mut cursor = ByteCursor::new(vec![2, b'o', b'k', 0xFF]);
    let template = [RawPacketValueType::String, RawPacketValueType::Byte];
    assert_eq!(
        read_values_from_template(&mut cursor, &template),
        Ok(vec![RawPacketValue::String("ok".to_string()), RawPacketValue::Byte(-1)])
    );
    assert_eq!(cursor.position, 4);
}

#[test]
fn read_values_from_template_stops_at_the_end_of_the_data() {
    let mut cursor = ByteCursor::new(vec![0, 0, 0, 1, 0x01, 0xFF, 0x02, 0x14, 0x01, 0x61, 0x00]);
    let template = [
        RawPacketValueType::Int,
        RawPacketValueType::UByte,
        RawPacketValueType::Byte,
        RawPacketValueType::UByte,
        RawPacketValueType::UByte,
        RawPacketValueType::String,
        RawPacketValueType::Boolean,
    ];
    assert_eq!(
        read_values_from_template(&mut cursor, &template),
        Ok(vec![
            RawPacketValue::Int(1),
            RawPacketValue::UByte(1),
            RawPacketValue::Byte(-1),
            RawPacketValue::UByte(2),
            RawPacketValue::UByte(20),
            RawPacketValue::String("a".to_string()),
            RawPacketValue::Boolean(false),
        ])
    );
    assert_eq!(cursor.position, 11);
    assert_eq!(cursor.position, cursor.data.len());
}

#[test]
fn read_values_from_template_starts_at_the_position() {
    let mut cursor = ByteCursor { data: vec![0xEE, 0xEE, 0x00, 0x07], position: 2 };
    assert_eq!(
        read_values_from_template(&mut cursor, &[RawPacketValueType::Short]),
        Ok(vec![RawPacketValue::Short(7)])
    );
    assert_eq!(cursor.position, 4);
    // nothing to read and nothing asked for: the cursor stays where it is
    let mut cursor = ByteCursor { data: vec![1, 2], position: 9 };
    assert_eq!(read_values_from_template(&mut cursor, &[]), Ok(vec![]));
    assert_eq!(cursor.position, 9);
}

#[test]
fn read_values_from_template_rejects_leftover_bytes() {
    let mut cursor = ByteCursor::new(vec![0, 5, 9]);
    assert_eq!(
        read_values_from_template(&mut cursor, &[RawPacketValueType::Short]),
        Err(PacketError::MalformedPacket("bytes are left after the last field"))
    );
    assert_eq!(cursor.position, 0);
}

#[test]
fn read_values_from_template_rejects_a_shortfall() {
    let mut cursor = ByteCursor::new(vec![0, 5, 9]);
    let template = [RawPacketValueType::Short, RawPacketValueType::Short];
    assert_eq!(
        read_values_from_template(&mut cursor, &template),
        Err(PacketError::MalformedPacket("a field is cut short or not of its kind"))
    );
    assert_eq!(cursor.position, 0);
}

#[test]
fn read_values_from_template_with_an_empty_template() {
    let mut cursor = ByteCursor::new(vec![]);
    assert_eq!(read_values_from_template(&mut cursor, &[]), Ok(vec![]));
    let mut cursor = ByteCursor::new(vec![1]);
    assert_eq!(
        read_values_from_template(&mut cursor, &[]),
        Err(PacketError::MalformedPacket("bytes are left after the last field"))
    );
}

#[test]
fn unknown_id_carries_id_and_state() {
    let c = connection(ConnectionState::Play, CompressionStatus::Disabled);
    let mut cursor = ByteCursor::new(vec![2, 0x7F, 0x00, 0x55]);
    assert_eq!(
        Packet::deserialize(&mut cursor, &c),
        Err(PacketError::UnknownPacketIdentifier { id: 0x7F, state: ConnectionState::Play })
    );
    assert_eq!(cursor.position, 3);
}

#[test]
fn an_id_of_another_state_is_unknown() {
    // 0x20 is the server's keep-alive in play, and nothing while logging in
    let c = connection(ConnectionState::Login, CompressionStatus::Disabled);
    let mut cursor = ByteCursor::new(vec![9, 0x20, 0, 0, 0, 0, 0, 0, 0, 77]);
    assert_eq!(
        Packet::deserialize(&mut cursor, &c),
        Err(PacketError::UnknownPacketIdentifier { id: 0x20, state: ConnectionState::Login })
    );
    assert_eq!(cursor.position, 10);
}

#[test]
fn an_id_of_the_other_direction_is_unknown() {
    // 0x0F is the client's keep-alive
    let c = connection(ConnectionState::Play, CompressionStatus::Disabled);
    let mut cursor = ByteCursor::new(vec![9, 0x0F, 0, 0, 0, 0, 0, 0, 0, 77]);
    assert_eq!(
        Packet::deserialize(&mut cursor, &c),
        Err(PacketError::UnknownPacketIdentifier { id: 0x0F, state: ConnectionState::Play })
    );
    let mut cursor = ByteCursor::new(vec![9, 0x0F, 0, 0, 0, 0, 0, 0, 0, 77]);
    assert_eq!(
        Packet::deserialize_as(
            &mut cursor,
            ConnectionState::Play,
            CompressionStatus::Disabled,
            Direction::ServerBound
        ),
        Ok(Packet::ClientKeepAlive { magic: 77 })
    );
}

#[test]
fn leftover_bytes_make_a_malformed_packet() {
    let c = connection(ConnectionState::Play, CompressionStatus::Disabled);
    let mut cursor = ByteCursor::new(vec![10, 0x20, 0, 0, 0, 0, 0, 0, 0, 77, 1]);
    assert_eq!(
        Packet::deserialize(&mut cursor, &c),
        Err(PacketError::MalformedPacket("bytes are left after the last field"))
    );
    assert_eq!(cursor.position, 11);
}

#[test]
fn missing_bytes_make_a_malformed_packet() {
    let c = connection(ConnectionState::Play, CompressionStatus::Disabled);
    let mut cursor = ByteCursor::new(vec![8, 0x20, 0, 0, 0, 0, 0, 0, 0, 0x55]);
    assert_eq!(
        Packet::deserialize(&mut cursor, &c),
        Err(PacketError::MalformedPacket("a field is cut short or not of its kind"))
    );
    assert_eq!(cursor.position, 9);
}

#[test]
fn a_handshake_of_another_version_is_malformed() {
    let fields = [
        RawPacketValue::VarInt(47),
        RawPacketValue::String("h".to_string()),
        RawPacketValue::UShort(1),
        RawPacketValue::VarInt(2),
    ];
    let payload = encode_payload(0, &fields).unwrap();
    assert_eq!(
        read_payload(payload, ConnectionState::Handshake, Direction::ServerBound),
        Err(PacketError::MalformedPacket("the field values are not those of the packet"))
    );
    let fields = [
        RawPacketValue::VarInt(498),
        RawPacketValue::String("h".to_string()),
        RawPacketValue::UShort(1),
        RawPacketValue::VarInt(1),
    ];
    let payload = encode_payload(0, &fields).unwrap();
    assert_eq!(
        read_payload(payload, ConnectionState::Handshake, Direction::ServerBound),
        Err(PacketError::MalformedPacket("the field values are not those of the packet"))
    );
}

#[test]
fn an_incomplete_frame_leaves_the_cursor_alone() {
    let c = connection(ConnectionState::Play, CompressionStatus::Disabled);
    for data in [vec![], vec![0x80], vec![9], vec![9, 0x20, 0, 0]] {
        let mut cursor = ByteCursor::new(data);
        assert_eq!(
            Packet::deserialize(&mut cursor, &c),
            Err(PacketError::DeserializeIOError(IoErrorKind::UnexpectedEof))
        );
        assert_eq!(cursor.position, 0);
    }
}

#[test]
fn a_frame_length_that_is_no_varint_is_invalid_data() {
    let c = connection(ConnectionState::Play, CompressionStatus::Disabled);
    let mut cursor = ByteCursor::new(vec![0xFF, 0xFF, 0xFF, 0xFF, 0xFF, 0x01]);
    assert_eq!(
        Packet::deserialize(&mut cursor, &c),
        Err(PacketError::DeserializeIOError(IoErrorKind::InvalidData))
    );
    assert_eq!(cursor.position, 0);
}

#[test]
fn a_negative_frame_length_is_invalid_data() {
    let c = connection(ConnectionState::Play, CompressionStatus::Disabled);
    let mut cursor = ByteCursor::new(vec![0xFF, 0xFF, 0xFF, 0xFF, 0x0F, 0x20]);
    assert_eq!(
        Packet::deserialize(&mut cursor, &c),
        Err(PacketError::DeserializeIOError(IoErrorKind::InvalidData))
    );
    assert_eq!(cursor.position, 0);
}

#[test]
fn an_empty_frame_has_no_id() {
    let c = connection(ConnectionState::Play, CompressionStatus::Disabled);
    let mut cursor = ByteCursor::new(vec![0, 0x55]);
    assert_eq!(
        Packet::deserialize(&mut cursor, &c),
        Err(PacketError::DeserializeIOError(IoErrorKind::UnexpectedEof))
    );
    assert_eq!(cursor.position, 1);
}

#[test]
fn a_wrong_declared_size_is_a_compression_error() {
    let enabled = CompressionStatus::Enabled(0);
    let c = connection(ConnectionState::Play, enabled);
    let frame = Packet::ServerKeepAlive { magic: 5 }.serialize(&c).unwrap();
    // frame: length, size 9, stream
    assert_eq!(frame[1], 9);
    let mut wrong = frame.clone();
    wrong[1] = 8;
    let mut cursor = ByteCursor::new(wrong);
    assert_eq!(Packet::deserialize(&mut cursor, &c), Err(PacketError::CompressionError));
    assert_eq!(cursor.position, frame.len());
}

#[test]
fn a_stream_that_is_no_zlib_is_a_compression_error() {
    let c = connection(ConnectionState::Play, CompressionStatus::Enabled(0));
    let mut cursor = ByteCursor::new(vec![4, 9, 1, 2, 3]);
    assert_eq!(Packet::deserialize(&mut cursor, &c), Err(PacketError::CompressionError));
    assert_eq!(cursor.position, 5);
}

#[test]
fn a_negative_declared_size_is_a_compression_error() {
    assert_eq!(
        read_body(vec![0xFF, 0xFF, 0xFF, 0xFF, 0x0F, 1, 2], CompressionStatus::Enabled(0)),
        Err(PacketError::CompressionError)
    );
}

#[test]
fn read_body_takes_the_payload_out() {
    assert_eq!(read_body(vec![1, 2, 3], CompressionStatus::Disabled), Ok(vec![1, 2, 3]));
    assert_eq!(read_body(vec![0, 2, 3], CompressionStatus::Enabled(5)), Ok(vec![2, 3]));
    assert_eq!(read_body(vec![0], CompressionStatus::Enabled(5)), Ok(vec![]));
    assert_eq!(
        read_body(vec![], CompressionStatus::Enabled(5)),
        Err(PacketError::DeserializeIOError(IoErrorKind::UnexpectedEof))
    );
    assert_eq!(
        read_body(vec![0x80; 5], CompressionStatus::Enabled(5)),
        Err(PacketError::DeserializeIOError(IoErrorKind::InvalidData))
    );
}

#[test]
fn a_compressed_frame_is_misread_without_compression() {
    // with compression disabled the zero of the preamble is taken for the id
    let enabled = connection(ConnectionState::Login, CompressionStatus::Enabled(100));
    let disabled = connection(ConnectionState::Login, CompressionStatus::Disabled);
    let frame = Packet::ServerLoginSuccess { uuid: "u".to_string(), name: "n".to_string() }
        .serialize(&enabled)
        .unwrap();
    let mut cursor = ByteCursor::new(frame);
    assert_eq!(
        Packet::deserialize(&mut cursor, &disabled),
        Err(PacketError::UnknownPacketIdentifier { id: 0, state: ConnectionState::Login })
    );
}

#[test]
fn wire_fields_and_back() {
    for packet in all_packets() {
        let ty = packet.ty();
        let fields = packet.clone().wire_fields();
        assert_eq!(fields.len(), ty.fields().len());
        assert_eq!(Packet::from_wire_fields(ty, fields), Some(packet));
    }
}

#[test]
fn from_wire_fields_rejects_other_shapes() {
    assert_eq!(Packet::from_wire_fields(PacketType::ServerKeepAlive, vec![]), None);
    assert_eq!(
        Packet::from_wire_fields(PacketType::ServerKeepAlive, vec![RawPacketValue::Int(1)]),
        None
    );
    assert_eq!(
        Packet::from_wire_fields(
            PacketType::ServerKeepAlive,
            vec![RawPacketValue::Long(1), RawPacketValue::Long(2)]
        ),
        None
    );
    assert_eq!(
        Packet::from_wire_fields(PacketType::ServerKeepAlive, vec![RawPacketValue::Long(1)]),
        Some(Packet::ServerKeepAlive { magic: 1 })
    );
}

#[test]
fn next_inbound_waits_for_the_rest_of_a_frame() {
    let c = connection(ConnectionState::Play, CompressionStatus::Disabled);
    for data in [vec![], vec![0x80], vec![9], vec![9, 0x20, 0, 0, 0, 0, 0, 0, 0]] {
        let mut cursor = ByteCursor::new(data);
        assert_eq!(Packet::next_inbound(&mut cursor, &c), Inbound::Incomplete);
        assert_eq!(cursor.position, 0);
    }
}

#[test]
fn next_inbound_gives_up_on_a_stream_out_of_step() {
    let c = connection(ConnectionState::Play, CompressionStatus::Disabled);
    let mut cursor = ByteCursor::new(vec![0x80, 0x80, 0x80, 0x80, 0x80]);
    assert_eq!(Packet::next_inbound(&mut cursor, &c), Inbound::Unframed);
    assert_eq!(cursor.position, 0);
    let mut cursor = ByteCursor::new(vec![0xFF, 0xFF, 0xFF, 0xFF, 0x0F, 1, 2, 3]);
    assert_eq!(Packet::next_inbound(&mut cursor, &c), Inbound::Unframed);
    assert_eq!(cursor.position, 0);
}

#[test]
fn next_inbound_takes_packets_and_drops_bad_frames() {
    let c = connection(ConnectionState::Play, CompressionStatus::Disabled);
    let mut data = vec![2, 0x7F, 0x00];
    data.extend_from_slice(&[9, 0x20, 0, 0, 0, 0, 0, 0, 0, 77]);
    data.extend_from_slice(&[3, 0x20, 1, 2]);
    data.extend_from_slice(&[0]);
    data.extend_from_slice(&[9, 0x20]);
    let mut cursor = ByteCursor::new(data);
    assert_eq!(
        Packet::next_inbound(&mut cursor, &c),
        Inbound::Discarded(PacketError::UnknownPacketIdentifier {
            id: 0x7F,
            state: ConnectionState::Play
        })
    );
    assert_eq!(cursor.position, 3);
    assert_eq!(
        Packet::next_inbound(&mut cursor, &c),
        Inbound::Received(Packet::ServerKeepAlive { magic: 77 })
    );
    assert_eq!(cursor.position, 13);
    assert_eq!(
        Packet::next_inbound(&mut cursor, &c),
        Inbound::Discarded(PacketError::MalformedPacket(
            "a field is cut short or not of its kind"
        ))
    );
    assert_eq!(cursor.position, 17);
    assert_eq!(
        Packet::next_inbound(&mut cursor, &c),
        Inbound::Discarded(PacketError::DeserializeIOError(IoErrorKind::UnexpectedEof))
    );
    assert_eq!(cursor.position, 18);
    assert_eq!(Packet::next_inbound(&mut cursor, &c), Inbound::Incomplete);
    assert_eq!(cursor.position, 18);
}
