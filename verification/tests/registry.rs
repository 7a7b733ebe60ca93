use mc_client::game::ConnectionState;
use mc_client::registry::{lookup_schema, Direction, PacketType};
use mc_client::values::RawPacketValueType;

const ALL: [PacketType; 17] = [
    PacketType::ClientHandshake,
    PacketType::ClientJoin,
    PacketType::ClientKeepAlive,
    PacketType::ClientPlayerPosition,
    PacketType::ClientPlayerLook,
    PacketType::ClientChat,
    PacketType::ClientHeldItemChange,
    PacketType::ClientPlayerPositionAndLook,
    PacketType::ServerCompressionLevelSet,
    PacketType::ServerLoginSuccess,
    PacketType::ServerEncryptionRequest,
    PacketType::ServerKeepAlive,
    PacketType::ServerWorldTimeUpdate,
    PacketType::ServerDisconnectPacket,
    PacketType::ServerChatPacket,
    PacketType::ServerJoinGame,
    PacketType::ServerPlayerPositionAndLook,
];

const STATES: [ConnectionState; 4] = [
    ConnectionState::Handshake,
    ConnectionState::Status,
    ConnectionState::Login,
    ConnectionState::Play,
];

#[test]
fn id_zero_depends_on_the_state() {
    assert_eq!(
        PacketType::from_state_and_id_and_direction(
            ConnectionState::Handshake,
            0x00,
            Direction::ServerBound
        ),
        Some(PacketType::ClientHandshake)
    );
    assert_eq!(
        PacketType::from_state_and_id_and_direction(
            ConnectionState::Login,
            0x00,
            Direction::ServerBound
        ),
        Some(PacketType::ClientJoin)
    );
}

#[test]
fn id_three_depends_on_state_and_direction() {
    assert_eq!(
        PacketType::from_state_and_id_and_direction(
            ConnectionState::Login,
            0x03,
            Direction::ClientBound
        ),
        Some(PacketType::ServerCompressionLevelSet)
    );
    assert_eq!(
        PacketType::from_state_and_id_and_direction(
            ConnectionState::Play,
            0x03,
            Direction::ServerBound
        ),
        Some(PacketType::ClientChat)
    );
    assert_eq!(
        PacketType::from_state_and_id_and_direction(
            ConnectionState::Login,
            0x03,
            Direction::ServerBound
        ),
        None
    );
    assert_eq!(
        PacketType::from_state_and_id_and_direction(
            ConnectionState::Play,
            0x03,
            Direction::ClientBound
        ),
        None
    );
}

#[test]
fn unknown_triples_resolve_to_nothing() {
    assert_eq!(
        PacketType::from_state_and_id_and_direction(
            ConnectionState::Play,
            0x7F,
            Direction::ClientBound
        ),
        None
    );
    assert_eq!(
        PacketType::from_state_and_id_and_direction(
            ConnectionState::Status,
            0x00,
            Direction::ServerBound
        ),
        None
    );
    assert_eq!(
        PacketType::from_state_and_id_and_direction(
            ConnectionState::Play,
            -1,
            Direction::ClientBound
        ),
        None
    );
    assert!(lookup_schema(ConnectionState::Play, Direction::ClientBound, 0x7F).is_none());
}

#[test]
fn every_packet_is_found_under_its_own_triple() {
    for ty in ALL {
        assert_eq!(
            PacketType::from_state_and_id_and_direction(ty.state(), ty.id(), ty.direction()),
            Some(ty)
        );
        let row = lookup_schema(ty.state(), ty.direction(), ty.id()).unwrap();
        assert_eq!(row, ty.schema());
        assert_eq!(row.state, ty.state());
        assert_eq!(row.direction, ty.direction());
        assert_eq!(row.id, ty.id());
        assert_eq!(row.name, ty.name());
        assert_eq!(row.fields, ty.fields());
    }
}

#[test]
fn every_triple_names_at_most_its_own_packet() {
    for state in STATES {
        for direction in [Direction::ServerBound, Direction::ClientBound] {
            for id in -2..0x100 {
                match PacketType::from_state_and_id_and_direction(state, id, direction) {
                    Some(ty) => {
                        assert_eq!(ty.state(), state);
                        assert_eq!(ty.direction(), direction);
                        assert_eq!(ty.id(), id);
                    }
                    None => {
                        for ty in ALL {
                            assert!(
                                ty.state() != state || ty.direction() != direction || ty.id() != id
                            );
                        }
                    }
                }
            }
        }
    }
}

#[test]
fn the_rows_of_the_login_flow() {
    let handshake = PacketType::ClientHandshake.schema();
    assert_eq!(handshake.state, ConnectionState::Handshake);
    assert_eq!(handshake.direction, Direction::ServerBound);
    assert_eq!(handshake.id, 0);
    assert_eq!(handshake.name, "ClientHandshake");
    assert_eq!(
        handshake.fields,
        vec![
            RawPacketValueType::VarInt,
            RawPacketValueType::String,
            RawPacketValueType::UShort,
            RawPacketValueType::VarInt
        ]
    );
    let join = PacketType::ClientJoin.schema();
    assert_eq!((join.state, join.direction, join.id), (ConnectionState::Login, Direction::ServerBound, 0));
    assert_eq!(join.fields, vec![RawPacketValueType::String]);
    let compression = PacketType::ServerCompressionLevelSet.schema();
    assert_eq!(
        (compression.state, compression.direction, compression.id),
        (ConnectionState::Login, Direction::ClientBound, 0x03)
    );
    assert_eq!(compression.fields, vec![RawPacketValueType::VarInt]);
    let success = PacketType::ServerLoginSuccess.schema();
    assert_eq!(
        (success.state, success.direction, success.id),
        (ConnectionState::Login, Direction::ClientBound, 0x02)
    );
    assert_eq!(
        success.fields,
        vec![RawPacketValueType::String, RawPacketValueType::String]
    );
}

#[test]
fn the_rows_of_the_play_state() {
    assert_eq!(PacketType::ServerKeepAlive.id(), 0x20);
    assert_eq!(PacketType::ServerKeepAlive.fields(), vec![RawPacketValueType::Long]);
    assert_eq!(PacketType::ClientKeepAlive.id(), 0x0F);
    assert_eq!(PacketType::ClientKeepAlive.fields(), vec![RawPacketValueType::Long]);
    assert_eq!(PacketType::ServerChatPacket.id(), 0x0E);
    assert_eq!(
        PacketType::ServerChatPacket.fields(),
        vec![RawPacketValueType::String, RawPacketValueType::Byte]
    );
    assert_eq!(PacketType::ServerPlayerPositionAndLook.id(), 0x35);
    assert_eq!(
        PacketType::ServerPlayerPositionAndLook.fields(),
        vec![
            RawPacketValueType::Double,
            RawPacketValueType::Double,
            RawPacketValueType::Double,
            RawPacketValueType::Float,
            RawPacketValueType::Float,
            RawPacketValueType::Byte,
            RawPacketValueType::VarInt
        ]
    );
    assert_eq!(PacketType::ClientPlayerPositionAndLook.id(), 0x06);
    assert_eq!(
        PacketType::ClientPlayerPositionAndLook.fields(),
        vec![
            RawPacketValueType::Double,
            RawPacketValueType::Double,
            RawPacketValueType::Double,
            RawPacketValueType::Float,
            RawPacketValueType::Float,
            RawPacketValueType::Boolean
        ]
    );
    assert_eq!(PacketType::ServerJoinGame.id(), 0x25);
    assert_eq!(PacketType::ServerWorldTimeUpdate.id(), 0x4E);
    assert_eq!(PacketType::ServerDisconnectPacket.id(), 0x1A);
    assert_eq!(PacketType::ServerEncryptionRequest.id(), 0x01);
    assert_eq!(PacketType::ClientPlayerPosition.id(), 0x04);
    assert_eq!(PacketType::ClientPlayerLook.id(), 0x05);
    assert_eq!(PacketType::ClientChat.id(), 0x03);
    assert_eq!(PacketType::ClientHeldItemChange.id(), 0x23);
    for ty in ALL {
        if ty != PacketType::ClientHandshake
            && ty != PacketType::ClientJoin
            && ty.direction() == Direction::ServerBound
        {
            assert_eq!(ty.state(), ConnectionState::Play);
        }
    }
}
