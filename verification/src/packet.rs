//! The packets themselves: each variant of the table with the values of
//! its fields.

use crate::registry::PacketType;
use crate::values::{RawPacketValue, RawPacketValueType, RawValue};
use vstd::prelude::*;

verus! {

/// The protocol version that a handshake announces.
pub const PROTOCOL_VERSION: i32 = 498;

/// The state that a handshake asks for: login.
pub const NEXT_STATE_LOGIN: i32 = 2;

/// A packet with its field values. Floating-point fields hold the IEEE 754
/// bit pattern of the number.
#[derive(Debug, Clone, PartialEq, Eq)]
pub enum Packet {
    ClientHandshake {
        host_address: String,
        port: u16,
    },
    ClientJoin {
        player_name: String,
    },
    ClientKeepAlive {
        magic: i64,
    },
    ClientPlayerPosition {
        x: u64,
        y: u64,
        z: u64,
        onground: bool,
    },
    ClientPlayerLook {
        yaw: u32,
        pitch: u32,
        onground: bool,
    },
    ClientChat {
        message: String,
    },
    ClientHeldItemChange {
        slot: i16,
    },
    ClientPlayerPositionAndLook {
        x: u64,
        y: u64,
        z: u64,
        yaw: u32,
        pitch: u32,
        onground: bool,
    },
    ServerCompressionLevelSet {
        compression_level: i32,
    },
    ServerLoginSuccess {
        uuid: String,
        name: String,
    },
    ServerEncryptionRequest {
        serverid: String,
        pubkey: Vec<u8>,
        verifytoken: Vec<u8>,
    },
    ServerKeepAlive {
        magic: i64,
    },
    ServerWorldTimeUpdate {
        age: i64,
        time: i64,
    },
    ServerDisconnectPacket {
        reason: String,
    },
    ServerChatPacket {
        message: String,
        position: i8,
    },
    ServerJoinGame {
        entity_id: i32,
        gamemode: u8,
        dimension: i8,
        difficulty: u8,
        max_players: u8,
        level_type: String,
        reduced_debug_info: bool,
    },
    ServerPlayerPositionAndLook {
        x: u64,
        y: u64,
        z: u64,
        yaw: u32,
        pitch: u32,
        flags: i8,
        teleportid: i32,
    },
}

/// A packet as mathematics sees it: its row of the table and the values
/// of its fields in wire order.
pub struct PacketView {
    pub ty: PacketType,
    pub fields: Seq<RawValue>,
}

/// The kinds of a list of values.
pub open spec fn kinds(values: Seq<RawValue>) -> Seq<RawPacketValueType> {
    values.map_values(|v: RawValue| v.kind())
}

/// The views of a list of values.
pub open spec fn views(values: Seq<RawPacketValue>) -> Seq<RawValue> {
    values.map_values(|v: RawPacketValue| v@)
}

impl PacketView {
    /// Whether the field values are those of a packet of this row: their
    /// kinds are the row's, and a handshake announces the protocol version
    /// and asks for the login state.
    pub open spec fn well_formed(self) -> bool {
        &&& kinds(self.fields) == self.ty.spec_fields()
        &&& self.ty == PacketType::ClientHandshake ==> {
            &&& self.fields[0] == RawValue::VarInt(PROTOCOL_VERSION)
            &&& self.fields[3] == RawValue::VarInt(NEXT_STATE_LOGIN)
        }
    }
}

impl View for Packet {
    type V = PacketView;

    open spec fn view(&self) -> PacketView {
        match self {
            Packet::ClientHandshake { host_address, port } => PacketView {
                ty: PacketType::ClientHandshake,
                fields: seq![
                    RawValue::VarInt(PROTOCOL_VERSION),
                    RawValue::String(host_address@),
                    RawValue::UShort(*port),
                    RawValue::VarInt(NEXT_STATE_LOGIN),
                ],
            },
            Packet::ClientJoin { player_name } => PacketView {
                ty: PacketType::ClientJoin,
                fields: seq![
                    RawValue::String(player_name@),
                ],
            },
            Packet::ClientKeepAlive { magic } => PacketView {
                ty: PacketType::ClientKeepAlive,
                fields: seq![
                    RawValue::Long(*magic),
                ],
            },
            Packet::ClientPlayerPosition { x, y, z, onground } => PacketView {
                ty: PacketType::ClientPlayerPosition,
                fields: seq![
                    RawValue::Double(*x),
                    RawValue::Double(*y),
                    RawValue::Double(*z),
                    RawValue::Boolean(*onground),
                ],
            },
            Packet::ClientPlayerLook { yaw, pitch, onground } => PacketView {
                ty: PacketType::ClientPlayerLook,
                fields: seq![
                    RawValue::Float(*yaw),
                    RawValue::Float(*pitch),
                    RawValue::Boolean(*onground),
                ],
            },
            Packet::ClientChat { message } => PacketView {
                ty: PacketType::ClientChat,
                fields: seq![
                    RawValue::String(message@),
                ],
            },
            Packet::ClientHeldItemChange { slot } => PacketView {
                ty: PacketType::ClientHeldItemChange,
                fields: seq![
                    RawValue::Short(*slot),
                ],
            },
            Packet::ClientPlayerPositionAndLook { x, y, z, yaw, pitch, onground } => PacketView {
                ty: PacketType::ClientPlayerPositionAndLook,
                fields: seq![
                    RawValue::Double(*x),
                    RawValue::Double(*y),
                    RawValue::Double(*z),
                    RawValue::Float(*yaw),
                    RawValue::Float(*pitch),
                    RawValue::Boolean(*onground),
                ],
            },
            Packet::ServerCompressionLevelSet { compression_level } => PacketView {
                ty: PacketType::ServerCompressionLevelSet,
                fields: seq![
                    RawValue::VarInt(*compression_level),
                ],
            },
            Packet::ServerLoginSuccess { uuid, name } => PacketView {
                ty: PacketType::ServerLoginSuccess,
                fields: seq![
                    RawValue::String(uuid@),
                    RawValue::String(name@),
                ],
            },
            Packet::ServerEncryptionRequest { serverid, pubkey, verifytoken } => PacketView {
                ty: PacketType::ServerEncryptionRequest,
                fields: seq![
                    RawValue::String(serverid@),
                    RawValue::ByteArray(pubkey@),
                    RawValue::ByteArray(verifytoken@),
                ],
            },
            Packet::ServerKeepAlive { magic } => PacketView {
                ty: PacketType::ServerKeepAlive,
                fields: seq![
                    RawValue::Long(*magic),
                ],
            },
            Packet::ServerWorldTimeUpdate { age, time } => PacketView {
                ty: PacketType::ServerWorldTimeUpdate,
                fields: seq![
                    RawValue::Long(*age),
                    RawValue::Long(*time),
                ],
            },
            Packet::ServerDisconnectPacket { reason } => PacketView {
                ty: PacketType::ServerDisconnectPacket,
                fields: seq![
                    RawValue::String(reason@),
                ],
            },
            Packet::ServerChatPacket { message, position } => PacketView {
                ty: PacketType::ServerChatPacket,
                fields: seq![
                    RawValue::String(message@),
                    RawValue::Byte(*position),
                ],
            },
            Packet::ServerJoinGame {
                entity_id,
                gamemode,
                dimension,
                difficulty,
                max_players,
                level_type,
                reduced_debug_info,
            } => PacketView {
                ty: PacketType::ServerJoinGame,
                fields: seq![
                    RawValue::Int(*entity_id),
                    RawValue::UByte(*gamemode),
                    RawValue::Byte(*dimension),
                    RawValue::UByte(*difficulty),
                    RawValue::UByte(*max_players),
                    RawValue::String(level_type@),
                    RawValue::Boolean(*reduced_debug_info),
                ],
            },
            Packet::ServerPlayerPositionAndLook {
                x,
                y,
                z,
                yaw,
                pitch,
                flags,
                teleportid,
            } => PacketView {
                ty: PacketType::ServerPlayerPositionAndLook,
                fields: seq![
                    RawValue::Double(*x),
                    RawValue::Double(*y),
                    RawValue::Double(*z),
                    RawValue::Float(*yaw),
                    RawValue::Float(*pitch),
                    RawValue::Byte(*flags),
                    RawValue::VarInt(*teleportid),
                ],
            },
        }
    }
}

impl Packet {
    /// The packet's row of the table.
    pub fn ty(&self) -> (r: PacketType)
        ensures
            r == self@.ty,
    {
        match self {
            Packet::ClientHandshake { .. } => PacketType::ClientHandshake,
            Packet::ClientJoin { .. } => PacketType::ClientJoin,
            Packet::ClientKeepAlive { .. } => PacketType::ClientKeepAlive,
            Packet::ClientPlayerPosition { .. } => PacketType::ClientPlayerPosition,
            Packet::ClientPlayerLook { .. } => PacketType::ClientPlayerLook,
            Packet::ClientChat { .. } => PacketType::ClientChat,
            Packet::ClientHeldItemChange { .. } => PacketType::ClientHeldItemChange,
            Packet::ClientPlayerPositionAndLook { .. } => PacketType::ClientPlayerPositionAndLook,
            Packet::ServerCompressionLevelSet { .. } => PacketType::ServerCompressionLevelSet,
            Packet::ServerLoginSuccess { .. } => PacketType::ServerLoginSuccess,
            Packet::ServerEncryptionRequest { .. } => PacketType::ServerEncryptionRequest,
            Packet::ServerKeepAlive { .. } => PacketType::ServerKeepAlive,
            Packet::ServerWorldTimeUpdate { .. } => PacketType::ServerWorldTimeUpdate,
            Packet::ServerDisconnectPacket { .. } => PacketType::ServerDisconnectPacket,
            Packet::ServerChatPacket { .. } => PacketType::ServerChatPacket,
            Packet::ServerJoinGame { .. } => PacketType::ServerJoinGame,
            Packet::ServerPlayerPositionAndLook { .. } => PacketType::ServerPlayerPositionAndLook,
        }
    }

    /// The values of the packet's fields in wire order.
    pub fn wire_fields(self) -> (r: Vec<RawPacketValue>)
        ensures
            views(r@) == self@.fields,
    {
        let fields = match self {
            Packet::ClientHandshake { host_address, port } => vec![
                RawPacketValue::VarInt(PROTOCOL_VERSION),
                RawPacketValue::String(host_address),
                RawPacketValue::UShort(port),
                RawPacketValue::VarInt(NEXT_STATE_LOGIN),
            ],
            Packet::ClientJoin { player_name } => vec![
                RawPacketValue::String(player_name),
            ],
            Packet::ClientKeepAlive { magic } => vec![
                RawPacketValue::Long(magic),
            ],
            Packet::ClientPlayerPosition { x, y, z, onground } => vec![
                RawPacketValue::Double(x),
                RawPacketValue::Double(y),
                RawPacketValue::Double(z),
                RawPacketValue::Boolean(onground),
            ],
            Packet::ClientPlayerLook { yaw, pitch, onground } => vec![
                RawPacketValue::Float(yaw),
                RawPacketValue::Float(pitch),
                RawPacketValue::Boolean(onground),
            ],
            Packet::ClientChat { message } => vec![
                RawPacketValue::String(message),
            ],
            Packet::ClientHeldItemChange { slot } => vec![
                RawPacketValue::Short(slot),
            ],
            Packet::ClientPlayerPositionAndLook { x, y, z, yaw, pitch, onground } => vec![
                RawPacketValue::Double(x),
                RawPacketValue::Double(y),
                RawPacketValue::Double(z),
                RawPacketValue::Float(yaw),
                RawPacketValue::Float(pitch),
                RawPacketValue::Boolean(onground),
            ],
            Packet::ServerCompressionLevelSet { compression_level } => vec![
                RawPacketValue::VarInt(compression_level),
            ],
            Packet::ServerLoginSuccess { uuid, name } => vec![
                RawPacketValue::String(uuid),
                RawPacketValue::String(name),
            ],
            Packet::ServerEncryptionRequest { serverid, pubkey, verifytoken } => vec![
                RawPacketValue::String(serverid),
                RawPacketValue::ByteArray(pubkey),
                RawPacketValue::ByteArray(verifytoken),
            ],
            Packet::ServerKeepAlive { magic } => vec![
                RawPacketValue::Long(magic),
            ],
            Packet::ServerWorldTimeUpdate { age, time } => vec![
                RawPacketValue::Long(age),
                RawPacketValue::Long(time),
            ],
            Packet::ServerDisconnectPacket { reason } => vec![
                RawPacketValue::String(reason),
            ],
            Packet::ServerChatPacket { message, position } => vec![
                RawPacketValue::String(message),
                RawPacketValue::Byte(position),
            ],
            Packet::ServerJoinGame {
                entity_id,
                gamemode,
                dimension,
                difficulty,
                max_players,
                level_type,
                reduced_debug_info,
            } => vec![
                RawPacketValue::Int(entity_id),
                RawPacketValue::UByte(gamemode),
                RawPacketValue::Byte(dimension),
                RawPacketValue::UByte(difficulty),
                RawPacketValue::UByte(max_players),
                RawPacketValue::String(level_type),
                RawPacketValue::Boolean(reduced_debug_info),
            ],
            Packet::ServerPlayerPositionAndLook { x, y, z, yaw, pitch, flags, teleportid } => vec![
                RawPacketValue::Double(x),
                RawPacketValue::Double(y),
                RawPacketValue::Double(z),
                RawPacketValue::Float(yaw),
                RawPacketValue::Float(pitch),
                RawPacketValue::Byte(flags),
                RawPacketValue::VarInt(teleportid),
            ],
        };
        assert(views(fields@) =~= self@.fields);
        fields
    }

    /// The packet of row `ty` with the given field values, or `None` where
    /// the values are not those of such a packet.
    pub fn from_wire_fields(ty: PacketType, fields: Vec<RawPacketValue>) -> (r: Option<Packet>)
        ensures
            built_from(ty, views(fields@), r),
    {
        match ty {
            PacketType::ClientHandshake => client_handshake(fields),
            PacketType::ClientJoin => client_join(fields),
            PacketType::ClientKeepAlive => client_keep_alive(fields),
            PacketType::ClientPlayerPosition => client_player_position(fields),
            PacketType::ClientPlayerLook => client_player_look(fields),
            PacketType::ClientChat => client_chat(fields),
            PacketType::ClientHeldItemChange => client_held_item_change(fields),
            PacketType::ClientPlayerPositionAndLook => client_player_position_and_look(fields),
            PacketType::ServerCompressionLevelSet => server_compression_level_set(fields),
            PacketType::ServerLoginSuccess => server_login_success(fields),
            PacketType::ServerEncryptionRequest => server_encryption_request(fields),
            PacketType::ServerKeepAlive => server_keep_alive(fields),
            PacketType::ServerWorldTimeUpdate => server_world_time_update(fields),
            PacketType::ServerDisconnectPacket => server_disconnect_packet(fields),
            PacketType::ServerChatPacket => server_chat_packet(fields),
            PacketType::ServerJoinGame => server_join_game(fields),
            PacketType::ServerPlayerPositionAndLook => server_player_position_and_look(fields),
        }
    }
}

/// What building a packet of row `ty` from `given` values comes to: the
/// packet with exactly those values where they are a packet's, else
/// nothing.
pub open spec fn built_from(ty: PacketType, given: Seq<RawValue>, r: Option<Packet>) -> bool {
    match r {
        Some(p) => p@ == (PacketView { ty, fields: given }) && p@.well_formed(),
        None => !(PacketView { ty, fields: given }).well_formed(),
    }
}

fn client_handshake(fields: Vec<RawPacketValue>) -> (r: Option<Packet>)
    ensures
        built_from(PacketType::ClientHandshake, views(fields@), r),
{
    let ghost given = views(fields@);
    let ghost ty = PacketType::ClientHandshake;
    let mut fields = fields;
    if fields.len() != 4 {
        assert(kinds(given).len() != ty.spec_fields().len());
        return None;
    }
    assert(kinds(given)[0] == given[0].kind());
    assert(kinds(given)[1] == given[1].kind());
    assert(kinds(given)[2] == given[2].kind());
    assert(kinds(given)[3] == given[3].kind());
    let f3 = fields.pop().unwrap();
    let f2 = fields.pop().unwrap();
    let f1 = fields.pop().unwrap();
    let f0 = fields.pop().unwrap();
    assert(f0@ == given[0]);
    assert(f1@ == given[1]);
    assert(f2@ == given[2]);
    assert(f3@ == given[3]);
    match (f0, f1, f2, f3) {
        (
            RawPacketValue::VarInt(c0),
            RawPacketValue::String(host_address),
            RawPacketValue::UShort(port),
            RawPacketValue::VarInt(c3),
        ) => {
            if c0 != PROTOCOL_VERSION || c3 != NEXT_STATE_LOGIN {
                return None;
            }
            let p = Packet::ClientHandshake { host_address, port };
            assert(p@.fields =~= given);
            assert(kinds(given) =~= ty.spec_fields());
            Some(p)
        },
        _ => None,
    }
}

fn client_join(fields: Vec<RawPacketValue>) -> (r: Option<Packet>)
    ensures
        built_from(PacketType::ClientJoin, views(fields@), r),
{
    let ghost given = views(fields@);
    let ghost ty = PacketType::ClientJoin;
    let mut fields = fields;
    if fields.len() != 1 {
        assert(kinds(given).len() != ty.spec_fields().len());
        return None;
    }
    assert(kinds(given)[0] == given[0].kind());
    let f0 = fields.pop().unwrap();
    assert(f0@ == given[0]);
    match f0 {
        RawPacketValue::String(player_name) => {
            let p = Packet::ClientJoin { player_name };
            assert(p@.fields =~= given);
            assert(kinds(given) =~= ty.spec_fields());
            Some(p)
        },
        _ => None,
    }
}

fn client_keep_alive(fields: Vec<RawPacketValue>) -> (r: Option<Packet>)
    ensures
        built_from(PacketType::ClientKeepAlive, views(fields@), r),
{
    let ghost given = views(fields@);
    let ghost ty = PacketType::ClientKeepAlive;
    let mut fields = fields;
    if fields.len() != 1 {
        assert(kinds(given).len() != ty.spec_fields().len());
        return None;
    }
    assert(kinds(given)[0] == given[0].kind());
    let f0 = fields.pop().unwrap();
    assert(f0@ == given[0]);
    match f0 {
        RawPacketValue::Long(magic) => {
            let p = Packet::ClientKeepAlive { magic };
            assert(p@.fields =~= given);
            assert(kinds(given) =~= ty.spec_fields());
            Some(p)
        },
        _ => None,
    }
}

fn client_player_position(fields: Vec<RawPacketValue>) -> (r: Option<Packet>)
    ensures
        built_from(PacketType::ClientPlayerPosition, views(fields@), r),
{
    let ghost given = views(fields@);
    let ghost ty = PacketType::ClientPlayerPosition;
    let mut fields = fields;
    if fields.len() != 4 {
        assert(kinds(given).len() != ty.spec_fields().len());
        return None;
    }
    assert(kinds(given)[0] == given[0].kind());
    assert(kinds(given)[1] == given[1].kind());
    assert(kinds(given)[2] == given[2].kind());
    assert(kinds(given)[3] == given[3].kind());
    let f3 = fields.pop().unwrap();
    let f2 = fields.pop().unwrap();
    let f1 = fields.pop().unwrap();
    let f0 = fields.pop().unwrap();
    assert(f0@ == given[0]);
    assert(f1@ == given[1]);
    assert(f2@ == given[2]);
    assert(f3@ == given[3]);
    match (f0, f1, f2, f3) {
        (
            RawPacketValue::Double(x),
            RawPacketValue::Double(y),
            RawPacketValue::Double(z),
            RawPacketValue::Boolean(onground),
        ) => {
            let p = Packet::ClientPlayerPosition { x, y, z, onground };
            assert(p@.fields =~= given);
            assert(kinds(given) =~= ty.spec_fields());
            Some(p)
        },
        _ => None,
    }
}

fn client_player_look(fields: Vec<RawPacketValue>) -> (r: Option<Packet>)
    ensures
        built_from(PacketType::ClientPlayerLook, views(fields@), r),
{
    let ghost given = views(fields@);
    let ghost ty = PacketType::ClientPlayerLook;
    let mut fields = fields;
    if fields.len() != 3 {
        assert(kinds(given).len() != ty.spec_fields().len());
        return None;
    }
    assert(kinds(given)[0] == given[0].kind());
    assert(kinds(given)[1] == given[1].kind());
    assert(kinds(given)[2] == given[2].kind());
    let f2 = fields.pop().unwrap();
    let f1 = fields.pop().unwrap();
    let f0 = fields.pop().unwrap();
    assert(f0@ == given[0]);
    assert(f1@ == given[1]);
    assert(f2@ == given[2]);
    match (f0, f1, f2) {
        (
            RawPacketValue::Float(yaw),
            RawPacketValue::Float(pitch),
            RawPacketValue::Boolean(onground),
        ) => {
            let p = Packet::ClientPlayerLook { yaw, pitch, onground };
            assert(p@.fields =~= given);
            assert(kinds(given) =~= ty.spec_fields());
            Some(p)
        },
        _ => None,
    }
}

fn client_chat(fields: Vec<RawPacketValue>) -> (r: Option<Packet>)
    ensures
        built_from(PacketType::ClientChat, views(fields@), r),
{
    let ghost given = views(fields@);
    let ghost ty = PacketType::ClientChat;
    let mut fields = fields;
    if fields.len() != 1 {
        assert(kinds(given).len() != ty.spec_fields().len());
        return None;
    }
    assert(kinds(given)[0] == given[0].kind());
    let f0 = fields.pop().unwrap();
    assert(f0@ == given[0]);
    match f0 {
        RawPacketValue::String(message) => {
            let p = Packet::ClientChat { message };
            assert(p@.fields =~= given);
            assert(kinds(given) =~= ty.spec_fields());
            Some(p)
        },
        _ => None,
    }
}

fn client_held_item_change(fields: Vec<RawPacketValue>) -> (r: Option<Packet>)
    ensures
        built_from(PacketType::ClientHeldItemChange, views(fields@), r),
{
    let ghost given = views(fields@);
    let ghost ty = PacketType::ClientHeldItemChange;
    let mut fields = fields;
    if fields.len() != 1 {
        assert(kinds(given).len() != ty.spec_fields().len());
        return None;
    }
    assert(kinds(given)[0] == given[0].kind());
    let f0 = fields.pop().unwrap();
    assert(f0@ == given[0]);
    match f0 {
        RawPacketValue::Short(slot) => {
            let p = Packet::ClientHeldItemChange { slot };
            assert(p@.fields =~= given);
            assert(kinds(given) =~= ty.spec_fields());
            Some(p)
        },
        _ => None,
    }
}

fn client_player_position_and_look(fields: Vec<RawPacketValue>) -> (r: Option<Packet>)
    ensures
        built_from(PacketType::ClientPlayerPositionAndLook, views(fields@), r),
{
    let ghost given = views(fields@);
    let ghost ty = PacketType::ClientPlayerPositionAndLook;
    let mut fields = fields;
    if fields.len() != 6 {
        assert(kinds(given).len() != ty.spec_fields().len());
        return None;
    }
    assert(kinds(given)[0] == given[0].kind());
    assert(kinds(given)[1] == given[1].kind());
    assert(kinds(given)[2] == given[2].kind());
    assert(kinds(given)[3] == given[3].kind());
    assert(kinds(given)[4] == given[4].kind());
    assert(kinds(given)[5] == given[5].kind());
    let f5 = fields.pop().unwrap();
    let f4 = fields.pop().unwrap();
    let f3 = fields.pop().unwrap();
    let f2 = fields.pop().unwrap();
    let f1 = fields.pop().unwrap();
    let f0 = fields.pop().unwrap();
    assert(f0@ == given[0]);
    assert(f1@ == given[1]);
    assert(f2@ == given[2]);
    assert(f3@ == given[3]);
    assert(f4@ == given[4]);
    assert(f5@ == given[5]);
    match (f0, f1, f2, f3, f4, f5) {
        (
            RawPacketValue::Double(x),
            RawPacketValue::Double(y),
            RawPacketValue::Double(z),
            RawPacketValue::Float(yaw),
            RawPacketValue::Float(pitch),
            RawPacketValue::Boolean(onground),
        ) => {
            let p = Packet::ClientPlayerPositionAndLook { x, y, z, yaw, pitch, onground };
            assert(p@.fields =~= given);
            assert(kinds(given) =~= ty.spec_fields());
            Some(p)
        },
        _ => None,
    }
}

fn server_compression_level_set(fields: Vec<RawPacketValue>) -> (r: Option<Packet>)
    ensures
        built_from(PacketType::ServerCompressionLevelSet, views(fields@), r),
{
    let ghost given = views(fields@);
    let ghost ty = PacketType::ServerCompressionLevelSet;
    let mut fields = fields;
    if fields.len() != 1 {
        assert(kinds(given).len() != ty.spec_fields().len());
        return None;
    }
    assert(kinds(given)[0] == given[0].kind());
    let f0 = fields.pop().unwrap();
    assert(f0@ == given[0]);
    match f0 {
        RawPacketValue::VarInt(compression_level) => {
            let p = Packet::ServerCompressionLevelSet { compression_level };
            assert(p@.fields =~= given);
            assert(kinds(given) =~= ty.spec_fields());
            Some(p)
        },
        _ => None,
    }
}

fn server_login_success(fields: Vec<RawPacketValue>) -> (r: Option<Packet>)
    ensures
        built_from(PacketType::ServerLoginSuccess, views(fields@), r),
{
    let ghost given = views(fields@);
    let ghost ty = PacketType::ServerLoginSuccess;
    let mut fields = fields;
    if fields.len() != 2 {
        assert(kinds(given).len() != ty.spec_fields().len());
        return None;
    }
    assert(kinds(given)[0] == given[0].kind());
    assert(kinds(given)[1] == given[1].kind());
    let f1 = fields.pop().unwrap();
    let f0 = fields.pop().unwrap();
    assert(f0@ == given[0]);
    assert(f1@ == given[1]);
    match (f0, f1) {
        (RawPacketValue::String(uuid), RawPacketValue::String(name)) => {
            let p = Packet::ServerLoginSuccess { uuid, name };
            assert(p@.fields =~= given);
            assert(kinds(given) =~= ty.spec_fields());
            Some(p)
        },
        _ => None,
    }
}

fn server_encryption_request(fields: Vec<RawPacketValue>) -> (r: Option<Packet>)
    ensures
        built_from(PacketType::ServerEncryptionRequest, views(fields@), r),
{
    let ghost given = views(fields@);
    let ghost ty = PacketType::ServerEncryptionRequest;
    let mut fields = fields;
    if fields.len() != 3 {
        assert(kinds(given).len() != ty.spec_fields().len());
        return None;
    }
    assert(kinds(given)[0] == given[0].kind());
    assert(kinds(given)[1] == given[1].kind());
    assert(kinds(given)[2] == given[2].kind());
    let f2 = fields.pop().unwrap();
    let f1 = fields.pop().unwrap();
    let f0 = fields.pop().unwrap();
    assert(f0@ == given[0]);
    assert(f1@ == given[1]);
    assert(f2@ == given[2]);
    match (f0, f1, f2) {
        (
            RawPacketValue::String(serverid),
            RawPacketValue::ByteArray(pubkey),
            RawPacketValue::ByteArray(verifytoken),
        ) => {
            let p = Packet::ServerEncryptionRequest { serverid, pubkey, verifytoken };
            assert(p@.fields =~= given);
            assert(kinds(given) =~= ty.spec_fields());
            Some(p)
        },
        _ => None,
    }
}

fn server_keep_alive(fields: Vec<RawPacketValue>) -> (r: Option<Packet>)
    ensures
        built_from(PacketType::ServerKeepAlive, views(fields@), r),
{
    let ghost given = views(fields@);
    let ghost ty = PacketType::ServerKeepAlive;
    let mut fields = fields;
    if fields.len() != 1 {
        assert(kinds(given).len() != ty.spec_fields().len());
        return None;
    }
    assert(kinds(given)[0] == given[0].kind());
    let f0 = fields.pop().unwrap();
    assert(f0@ == given[0]);
    match f0 {
        RawPacketValue::Long(magic) => {
            let p = Packet::ServerKeepAlive { magic };
            assert(p@.fields =~= given);
            assert(kinds(given) =~= ty.spec_fields());
            Some(p)
        },
        _ => None,
    }
}

fn server_world_time_update(fields: Vec<RawPacketValue>) -> (r: Option<Packet>)
    ensures
        built_from(PacketType::ServerWorldTimeUpdate, views(fields@), r),
{
    let ghost given = views(fields@);
    let ghost ty = PacketType::ServerWorldTimeUpdate;
    let mut fields = fields;
    if fields.len() != 2 {
        assert(kinds(given).len() != ty.spec_fields().len());
        return None;
    }
    assert(kinds(given)[0] == given[0].kind());
    assert(kinds(given)[1] == given[1].kind());
    let f1 = fields.pop().unwrap();
    let f0 = fields.pop().unwrap();
    assert(f0@ == given[0]);
    assert(f1@ == given[1]);
    match (f0, f1) {
        (RawPacketValue::Long(age), RawPacketValue::Long(time)) => {
            let p = Packet::ServerWorldTimeUpdate { age, time };
            assert(p@.fields =~= given);
            assert(kinds(given) =~= ty.spec_fields());
            Some(p)
        },
        _ => None,
    }
}

fn server_disconnect_packet(fields: Vec<RawPacketValue>) -> (r: Option<Packet>)
    ensures
        built_from(PacketType::ServerDisconnectPacket, views(fields@), r),
{
    let ghost given = views(fields@);
    let ghost ty = PacketType::ServerDisconnectPacket;
    let mut fields = fields;
    if fields.len() != 1 {
        assert(kinds(given).len() != ty.spec_fields().len());
        return None;
    }
    assert(kinds(given)[0] == given[0].kind());
    let f0 = fields.pop().unwrap();
    assert(f0@ == given[0]);
    match f0 {
        RawPacketValue::String(reason) => {
            let p = Packet::ServerDisconnectPacket { reason };
            assert(p@.fields =~= given);
            assert(kinds(given) =~= ty.spec_fields());
            Some(p)
        },
        _ => None,
    }
}

fn server_chat_packet(fields: Vec<RawPacketValue>) -> (r: Option<Packet>)
    ensures
        built_from(PacketType::ServerChatPacket, views(fields@), r),
{
    let ghost given = views(fields@);
    let ghost ty = PacketType::ServerChatPacket;
    let mut fields = fields;
    if fields.len() != 2 {
        assert(kinds(given).len() != ty.spec_fields().len());
        return None;
    }
    assert(kinds(given)[0] == given[0].kind());
    assert(kinds(given)[1] == given[1].kind());
    let f1 = fields.pop().unwrap();
    let f0 = fields.pop().unwrap();
    assert(f0@ == given[0]);
    assert(f1@ == given[1]);
    match (f0, f1) {
        (RawPacketValue::String(message), RawPacketValue::Byte(position)) => {
            let p = Packet::ServerChatPacket { message, position };
            assert(p@.fields =~= given);
            assert(kinds(given) =~= ty.spec_fields());
            Some(p)
        },
        _ => None,
    }
}

fn server_join_game(fields: Vec<RawPacketValue>) -> (r: Option<Packet>)
    ensures
        built_from(PacketType::ServerJoinGame, views(fields@), r),
{
    let ghost given = views(fields@);
    let ghost ty = PacketType::ServerJoinGame;
    let mut fields = fields;
    if fields.len() != 7 {
        assert(kinds(given).len() != ty.spec_fields().len());
        return None;
    }
    assert(kinds(given)[0] == given[0].kind());
    assert(kinds(given)[1] == given[1].kind());
    assert(kinds(given)[2] == given[2].kind());
    assert(kinds(given)[3] == given[3].kind());
    assert(kinds(given)[4] == given[4].kind());
    assert(kinds(given)[5] == given[5].kind());
    assert(kinds(given)[6] == given[6].kind());
    let f6 = fields.pop().unwrap();
    let f5 = fields.pop().unwrap();
    let f4 = fields.pop().unwrap();
    let f3 = fields.pop().unwrap();
    let f2 = fields.pop().unwrap();
    let f1 = fields.pop().unwrap();
    let f0 = fields.pop().unwrap();
    assert(f0@ == given[0]);
    assert(f1@ == given[1]);
    assert(f2@ == given[2]);
    assert(f3@ == given[3]);
    assert(f4@ == given[4]);
    assert(f5@ == given[5]);
    assert(f6@ == given[6]);
    match (f0, f1, f2, f3, f4, f5, f6) {
        (
            RawPacketValue::Int(entity_id),
            RawPacketValue::UByte(gamemode),
            RawPacketValue::Byte(dimension),
            RawPacketValue::UByte(difficulty),
            RawPacketValue::UByte(max_players),
            RawPacketValue::String(level_type),
            RawPacketValue::Boolean(reduced_debug_info),
        ) => {
            let p = Packet::ServerJoinGame {
                entity_id,
                gamemode,
                dimension,
                difficulty,
                max_players,
                level_type,
                reduced_debug_info,
            };
            assert(p@.fields =~= given);
            assert(kinds(given) =~= ty.spec_fields());
            Some(p)
        },
        _ => None,
    }
}

fn server_player_position_and_look(fields: Vec<RawPacketValue>) -> (r: Option<Packet>)
    ensures
        built_from(PacketType::ServerPlayerPositionAndLook, views(fields@), r),
{
    let ghost given = views(fields@);
    let ghost ty = PacketType::ServerPlayerPositionAndLook;
    let mut fields = fields;
    if fields.len() != 7 {
        assert(kinds(given).len() != ty.spec_fields().len());
        return None;
    }
    assert(kinds(given)[0] == given[0].kind());
    assert(kinds(given)[1] == given[1].kind());
    assert(kinds(given)[2] == given[2].kind());
    assert(kinds(given)[3] == given[3].kind());
    assert(kinds(given)[4] == given[4].kind());
    assert(kinds(given)[5] == given[5].kind());
    assert(kinds(given)[6] == given[6].kind());
    let f6 = fields.pop().unwrap();
    let f5 = fields.pop().unwrap();
    let f4 = fields.pop().unwrap();
    let f3 = fields.pop().unwrap();
    let f2 = fields.pop().unwrap();
    let f1 = fields.pop().unwrap();
    let f0 = fields.pop().unwrap();
    assert(f0@ == given[0]);
    assert(f1@ == given[1]);
    assert(f2@ == given[2]);
    assert(f3@ == given[3]);
    assert(f4@ == given[4]);
    assert(f5@ == given[5]);
    assert(f6@ == given[6]);
    match (f0, f1, f2, f3, f4, f5, f6) {
        (
            RawPacketValue::Double(x),
            RawPacketValue::Double(y),
            RawPacketValue::Double(z),
            RawPacketValue::Float(yaw),
            RawPacketValue::Float(pitch),
            RawPacketValue::Byte(flags),
            RawPacketValue::VarInt(teleportid),
        ) => {
            let p = Packet::ServerPlayerPositionAndLook { x, y, z, yaw, pitch, flags, teleportid };
            assert(p@.fields =~= given);
            assert(kinds(given) =~= ty.spec_fields());
            Some(p)
        },
        _ => None,
    }
}


/// The field values of every packet are those of its row.
pub proof fn lemma_packet_well_formed(p: Packet)
    ensures
        p@.well_formed(),
{
    assert(kinds(p@.fields) =~= p@.ty.spec_fields());
}

} // verus!
