//! The packet table: which packet a numeric id names in a given state and
//! direction, and the fields that each packet carries on the wire.

use crate::game::ConnectionState;
use crate::values::RawPacketValueType;
use vstd::prelude::*;

verus! {

/// Who a packet is sent to.
#[derive(Debug, Copy, Clone, PartialEq, Eq, Structural)]
pub enum Direction {
    /// Sent by the client.
    ServerBound,
    /// Sent by the server.
    ClientBound,
}

/// The packets of the table, without their field values.
#[derive(Debug, Copy, Clone, PartialEq, Eq, Structural)]
pub enum PacketType {
    ClientHandshake,
    ClientJoin,
    ClientKeepAlive,
    ClientPlayerPosition,
    ClientPlayerLook,
    ClientChat,
    ClientHeldItemChange,
    ClientPlayerPositionAndLook,
    ServerCompressionLevelSet,
    ServerLoginSuccess,
    ServerEncryptionRequest,
    ServerKeepAlive,
    ServerWorldTimeUpdate,
    ServerDisconnectPacket,
    ServerChatPacket,
    ServerJoinGame,
    ServerPlayerPositionAndLook,
}

/// One row of the table.
#[derive(Debug, Clone, PartialEq, Eq)]
pub struct PacketSchema {
    pub state: ConnectionState,
    pub direction: Direction,
    pub id: i32,
    pub name: &'static str,
    pub fields: Vec<RawPacketValueType>,
}

impl PacketType {
    /// The numeric id of the packet, unique among the packets of its state
    /// and direction only.
    pub open spec fn spec_id(&self) -> i32 {
        match self {
            PacketType::ClientHandshake => 0x00,
            PacketType::ClientJoin => 0x00,
            PacketType::ClientKeepAlive => 0x0F,
            PacketType::ClientPlayerPosition => 0x04,
            PacketType::ClientPlayerLook => 0x05,
            PacketType::ClientChat => 0x03,
            PacketType::ClientHeldItemChange => 0x23,
            PacketType::ClientPlayerPositionAndLook => 0x06,
            PacketType::ServerCompressionLevelSet => 0x03,
            PacketType::ServerLoginSuccess => 0x02,
            PacketType::ServerEncryptionRequest => 0x01,
            PacketType::ServerKeepAlive => 0x20,
            PacketType::ServerWorldTimeUpdate => 0x4E,
            PacketType::ServerDisconnectPacket => 0x1A,
            PacketType::ServerChatPacket => 0x0E,
            PacketType::ServerJoinGame => 0x25,
            PacketType::ServerPlayerPositionAndLook => 0x35,
        }
    }

    /// The state in which the packet travels.
    pub open spec fn spec_state(&self) -> ConnectionState {
        match self {
            PacketType::ClientHandshake => ConnectionState::Handshake,
            PacketType::ClientJoin => ConnectionState::Login,
            PacketType::ClientKeepAlive => ConnectionState::Play,
            PacketType::ClientPlayerPosition => ConnectionState::Play,
            PacketType::ClientPlayerLook => ConnectionState::Play,
            PacketType::ClientChat => ConnectionState::Play,
            PacketType::ClientHeldItemChange => ConnectionState::Play,
            PacketType::ClientPlayerPositionAndLook => ConnectionState::Play,
            PacketType::ServerCompressionLevelSet => ConnectionState::Login,
            PacketType::ServerLoginSuccess => ConnectionState::Login,
            PacketType::ServerEncryptionRequest => ConnectionState::Login,
            PacketType::ServerKeepAlive => ConnectionState::Play,
            PacketType::ServerWorldTimeUpdate => ConnectionState::Play,
            PacketType::ServerDisconnectPacket => ConnectionState::Play,
            PacketType::ServerChatPacket => ConnectionState::Play,
            PacketType::ServerJoinGame => ConnectionState::Play,
            PacketType::ServerPlayerPositionAndLook => ConnectionState::Play,
        }
    }

    /// Who the packet is sent to.
    pub open spec fn spec_direction(&self) -> Direction {
        match self {
            PacketType::ClientHandshake => Direction::ServerBound,
            PacketType::ClientJoin => Direction::ServerBound,
            PacketType::ClientKeepAlive => Direction::ServerBound,
            PacketType::ClientPlayerPosition => Direction::ServerBound,
            PacketType::ClientPlayerLook => Direction::ServerBound,
            PacketType::ClientChat => Direction::ServerBound,
            PacketType::ClientHeldItemChange => Direction::ServerBound,
            PacketType::ClientPlayerPositionAndLook => Direction::ServerBound,
            PacketType::ServerCompressionLevelSet => Direction::ClientBound,
            PacketType::ServerLoginSuccess => Direction::ClientBound,
            PacketType::ServerEncryptionRequest => Direction::ClientBound,
            PacketType::ServerKeepAlive => Direction::ClientBound,
            PacketType::ServerWorldTimeUpdate => Direction::ClientBound,
            PacketType::ServerDisconnectPacket => Direction::ClientBound,
            PacketType::ServerChatPacket => Direction::ClientBound,
            PacketType::ServerJoinGame => Direction::ClientBound,
            PacketType::ServerPlayerPositionAndLook => Direction::ClientBound,
        }
    }

    /// The kinds of the packet's fields, in wire order.
    pub open spec fn spec_fields(&self) -> Seq<RawPacketValueType> {
        match self {
            PacketType::ClientHandshake => seq![
                RawPacketValueType::VarInt,
                RawPacketValueType::String,
                RawPacketValueType::UShort,
                RawPacketValueType::VarInt,
            ],
            PacketType::ClientJoin => seq![RawPacketValueType::String],
            PacketType::ClientKeepAlive => seq![RawPacketValueType::Long],
            PacketType::ClientPlayerPosition => seq![
                RawPacketValueType::Double,
                RawPacketValueType::Double,
                RawPacketValueType::Double,
                RawPacketValueType::Boolean,
            ],
            PacketType::ClientPlayerLook => seq![
                RawPacketValueType::Float,
                RawPacketValueType::Float,
                RawPacketValueType::Boolean,
            ],
            PacketType::ClientChat => seq![RawPacketValueType::String],
            PacketType::ClientHeldItemChange => seq![RawPacketValueType::Short],
            PacketType::ClientPlayerPositionAndLook => seq![
                RawPacketValueType::Double,
                RawPacketValueType::Double,
                RawPacketValueType::Double,
                RawPacketValueType::Float,
                RawPacketValueType::Float,
                RawPacketValueType::Boolean,
            ],
            PacketType::ServerCompressionLevelSet => seq![RawPacketValueType::VarInt],
            PacketType::ServerLoginSuccess => seq![
                RawPacketValueType::String,
                RawPacketValueType::String,
            ],
            PacketType::ServerEncryptionRequest => seq![
                RawPacketValueType::String,
                RawPacketValueType::ByteArray,
                RawPacketValueType::ByteArray,
            ],
            PacketType::ServerKeepAlive => seq![RawPacketValueType::Long],
            PacketType::ServerWorldTimeUpdate => seq![
                RawPacketValueType::Long,
                RawPacketValueType::Long,
            ],
            PacketType::ServerDisconnectPacket => seq![RawPacketValueType::String],
            PacketType::ServerChatPacket => seq![
                RawPacketValueType::String,
                RawPacketValueType::Byte,
            ],
            PacketType::ServerJoinGame => seq![
                RawPacketValueType::Int,
                RawPacketValueType::UByte,
                RawPacketValueType::Byte,
                RawPacketValueType::UByte,
                RawPacketValueType::UByte,
                RawPacketValueType::String,
                RawPacketValueType::Boolean,
            ],
            PacketType::ServerPlayerPositionAndLook => seq![
                RawPacketValueType::Double,
                RawPacketValueType::Double,
                RawPacketValueType::Double,
                RawPacketValueType::Float,
                RawPacketValueType::Float,
                RawPacketValueType::Byte,
                RawPacketValueType::VarInt,
            ],
        }
    }

    /// The packet's name.
    pub open spec fn spec_name(&self) -> Seq<char> {
        match self {
            PacketType::ClientHandshake => "ClientHandshake"@,
            PacketType::ClientJoin => "ClientJoin"@,
            PacketType::ClientKeepAlive => "ClientKeepAlive"@,
            PacketType::ClientPlayerPosition => "ClientPlayerPosition"@,
            PacketType::ClientPlayerLook => "ClientPlayerLook"@,
            PacketType::ClientChat => "ClientChat"@,
            PacketType::ClientHeldItemChange => "ClientHeldItemChange"@,
            PacketType::ClientPlayerPositionAndLook => "ClientPlayerPositionAndLook"@,
            PacketType::ServerCompressionLevelSet => "ServerCompressionLevelSet"@,
            PacketType::ServerLoginSuccess => "ServerLoginSuccess"@,
            PacketType::ServerEncryptionRequest => "ServerEncryptionRequest"@,
            PacketType::ServerKeepAlive => "ServerKeepAlive"@,
            PacketType::ServerWorldTimeUpdate => "ServerWorldTimeUpdate"@,
            PacketType::ServerDisconnectPacket => "ServerDisconnectPacket"@,
            PacketType::ServerChatPacket => "ServerChatPacket"@,
            PacketType::ServerJoinGame => "ServerJoinGame"@,
            PacketType::ServerPlayerPositionAndLook => "ServerPlayerPositionAndLook"@,
        }
    }

    /// Whether `ty` is the packet that `id` names in `state` and
    /// `direction`.
    pub open spec fn resolves_to(
        state: ConnectionState,
        direction: Direction,
        id: i32,
        ty: PacketType,
    ) -> bool {
        ty.spec_state() == state && ty.spec_direction() == direction && ty.spec_id() == id
    }

    /// The packet that `id` names in `state` and `direction`, if any.
    pub open spec fn resolve(state: ConnectionState, direction: Direction, id: i32) -> Option<
        PacketType,
    > {
        if exists|ty: PacketType| PacketType::resolves_to(state, direction, id, ty) {
            Some(choose|ty: PacketType| PacketType::resolves_to(state, direction, id, ty))
        } else {
            None
        }
    }

    #[verifier::when_used_as_spec(spec_id)]
    pub fn id(&self) -> (r: i32)
        ensures
            r == self.spec_id(),
    {
        match self {
            PacketType::ClientHandshake => 0x00,
            PacketType::ClientJoin => 0x00,
            PacketType::ClientKeepAlive => 0x0F,
            PacketType::ClientPlayerPosition => 0x04,
            PacketType::ClientPlayerLook => 0x05,
            PacketType::ClientChat => 0x03,
            PacketType::ClientHeldItemChange => 0x23,
            PacketType::ClientPlayerPositionAndLook => 0x06,
            PacketType::ServerCompressionLevelSet => 0x03,
            PacketType::ServerLoginSuccess => 0x02,
            PacketType::ServerEncryptionRequest => 0x01,
            PacketType::ServerKeepAlive => 0x20,
            PacketType::ServerWorldTimeUpdate => 0x4E,
            PacketType::ServerDisconnectPacket => 0x1A,
            PacketType::ServerChatPacket => 0x0E,
            PacketType::ServerJoinGame => 0x25,
            PacketType::ServerPlayerPositionAndLook => 0x35,
        }
    }

    #[verifier::when_used_as_spec(spec_state)]
    pub fn state(&self) -> (r: ConnectionState)
        ensures
            r == self.spec_state(),
    {
        match self {
            PacketType::ClientHandshake => ConnectionState::Handshake,
            PacketType::ClientJoin => ConnectionState::Login,
            PacketType::ClientKeepAlive => ConnectionState::Play,
            PacketType::ClientPlayerPosition => ConnectionState::Play,
            PacketType::ClientPlayerLook => ConnectionState::Play,
            PacketType::ClientChat => ConnectionState::Play,
            PacketType::ClientHeldItemChange => ConnectionState::Play,
            PacketType::ClientPlayerPositionAndLook => ConnectionState::Play,
            PacketType::ServerCompressionLevelSet => ConnectionState::Login,
            PacketType::ServerLoginSuccess => ConnectionState::Login,
            PacketType::ServerEncryptionRequest => ConnectionState::Login,
            PacketType::ServerKeepAlive => ConnectionState::Play,
            PacketType::ServerWorldTimeUpdate => ConnectionState::Play,
            PacketType::ServerDisconnectPacket => ConnectionState::Play,
            PacketType::ServerChatPacket => ConnectionState::Play,
            PacketType::ServerJoinGame => ConnectionState::Play,
            PacketType::ServerPlayerPositionAndLook => ConnectionState::Play,
        }
    }

    #[verifier::when_used_as_spec(spec_direction)]
    pub fn direction(&self) -> (r: Direction)
        ensures
            r == self.spec_direction(),
    {
        match self {
            PacketType::ClientHandshake => Direction::ServerBound,
            PacketType::ClientJoin => Direction::ServerBound,
            PacketType::ClientKeepAlive => Direction::ServerBound,
            PacketType::ClientPlayerPosition => Direction::ServerBound,
            PacketType::ClientPlayerLook => Direction::ServerBound,
            PacketType::ClientChat => Direction::ServerBound,
            PacketType::ClientHeldItemChange => Direction::ServerBound,
            PacketType::ClientPlayerPositionAndLook => Direction::ServerBound,
            PacketType::ServerCompressionLevelSet => Direction::ClientBound,
            PacketType::ServerLoginSuccess => Direction::ClientBound,
            PacketType::ServerEncryptionRequest => Direction::ClientBound,
            PacketType::ServerKeepAlive => Direction::ClientBound,
            PacketType::ServerWorldTimeUpdate => Direction::ClientBound,
            PacketType::ServerDisconnectPacket => Direction::ClientBound,
            PacketType::ServerChatPacket => Direction::ClientBound,
            PacketType::ServerJoinGame => Direction::ClientBound,
            PacketType::ServerPlayerPositionAndLook => Direction::ClientBound,
        }
    }

    /// The kinds of the packet's fields, in wire order.
    pub fn fields(&self) -> (r: Vec<RawPacketValueType>)
        ensures
            r@ == self.spec_fields(),
    {
        match self {
            PacketType::ClientHandshake => vec![
                RawPacketValueType::VarInt,
                RawPacketValueType::String,
                RawPacketValueType::UShort,
                RawPacketValueType::VarInt,
            ],
            PacketType::ClientJoin => vec![RawPacketValueType::String],
            PacketType::ClientKeepAlive => vec![RawPacketValueType::Long],
            PacketType::ClientPlayerPosition => vec![
                RawPacketValueType::Double,
                RawPacketValueType::Double,
                RawPacketValueType::Double,
                RawPacketValueType::Boolean,
            ],
            PacketType::ClientPlayerLook => vec![
                RawPacketValueType::Float,
                RawPacketValueType::Float,
                RawPacketValueType::Boolean,
            ],
            PacketType::ClientChat => vec![RawPacketValueType::String],
            PacketType::ClientHeldItemChange => vec![RawPacketValueType::Short],
            PacketType::ClientPlayerPositionAndLook => vec![
                RawPacketValueType::Double,
                RawPacketValueType::Double,
                RawPacketValueType::Double,
                RawPacketValueType::Float,
                RawPacketValueType::Float,
                RawPacketValueType::Boolean,
            ],
            PacketType::ServerCompressionLevelSet => vec![RawPacketValueType::VarInt],
            PacketType::ServerLoginSuccess => vec![
                RawPacketValueType::String,
                RawPacketValueType::String,
            ],
            PacketType::ServerEncryptionRequest => vec![
                RawPacketValueType::String,
                RawPacketValueType::ByteArray,
                RawPacketValueType::ByteArray,
            ],
            PacketType::ServerKeepAlive => vec![RawPacketValueType::Long],
            PacketType::ServerWorldTimeUpdate => vec![
                RawPacketValueType::Long,
                RawPacketValueType::Long,
            ],
            PacketType::ServerDisconnectPacket => vec![RawPacketValueType::String],
            PacketType::ServerChatPacket => vec![
                RawPacketValueType::String,
                RawPacketValueType::Byte,
            ],
            PacketType::ServerJoinGame => vec![
                RawPacketValueType::Int,
                RawPacketValueType::UByte,
                RawPacketValueType::Byte,
                RawPacketValueType::UByte,
                RawPacketValueType::UByte,
                RawPacketValueType::String,
                RawPacketValueType::Boolean,
            ],
            PacketType::ServerPlayerPositionAndLook => vec![
                RawPacketValueType::Double,
                RawPacketValueType::Double,
                RawPacketValueType::Double,
                RawPacketValueType::Float,
                RawPacketValueType::Float,
                RawPacketValueType::Byte,
                RawPacketValueType::VarInt,
            ],
        }
    }

    /// The packet's name.
    pub fn name(&self) -> (r: &'static str)
        ensures
            r@ == self.spec_name(),
    {
        match self {
            PacketType::ClientHandshake => "ClientHandshake",
            PacketType::ClientJoin => "ClientJoin",
            PacketType::ClientKeepAlive => "ClientKeepAlive",
            PacketType::ClientPlayerPosition => "ClientPlayerPosition",
            PacketType::ClientPlayerLook => "ClientPlayerLook",
            PacketType::ClientChat => "ClientChat",
            PacketType::ClientHeldItemChange => "ClientHeldItemChange",
            PacketType::ClientPlayerPositionAndLook => "ClientPlayerPositionAndLook",
            PacketType::ServerCompressionLevelSet => "ServerCompressionLevelSet",
            PacketType::ServerLoginSuccess => "ServerLoginSuccess",
            PacketType::ServerEncryptionRequest => "ServerEncryptionRequest",
            PacketType::ServerKeepAlive => "ServerKeepAlive",
            PacketType::ServerWorldTimeUpdate => "ServerWorldTimeUpdate",
            PacketType::ServerDisconnectPacket => "ServerDisconnectPacket",
            PacketType::ServerChatPacket => "ServerChatPacket",
            PacketType::ServerJoinGame => "ServerJoinGame",
            PacketType::ServerPlayerPositionAndLook => "ServerPlayerPositionAndLook",
        }
    }

    /// The packet's row of the table.
    pub fn schema(&self) -> (r: PacketSchema)
        ensures
            r.state == self.spec_state(),
            r.direction == self.spec_direction(),
            r.id == self.spec_id(),
            r.name@ == self.spec_name(),
            r.fields@ == self.spec_fields(),
    {
        PacketSchema {
            state: self.state(),
            direction: self.direction(),
            id: self.id(),
            name: self.name(),
            fields: self.fields(),
        }
    }

    /// Resolves a numeric id in its context: the packet of the table that
    /// travels in `state` towards `bound_to` under `id`, or `None` if the
    /// table has no such packet.
    pub fn from_state_and_id_and_direction(
        state: ConnectionState,
        id: i32,
        bound_to: Direction,
    ) -> (r: Option<PacketType>)
        ensures
            r == PacketType::resolve(state, bound_to, id),
            match r {
                Some(ty) => PacketType::resolves_to(state, bound_to, id, ty),
                None => forall|ty: PacketType| !PacketType::resolves_to(state, bound_to, id, ty),
            },
    {
        let found = match (state, bound_to, id) {
            (ConnectionState::Handshake, Direction::ServerBound, 0x00) => Some(
                PacketType::ClientHandshake,
            ),
            (ConnectionState::Login, Direction::ServerBound, 0x00) => Some(
                PacketType::ClientJoin,
            ),
            (ConnectionState::Play, Direction::ServerBound, 0x0F) => Some(
                PacketType::ClientKeepAlive,
            ),
            (ConnectionState::Play, Direction::ServerBound, 0x04) => Some(
                PacketType::ClientPlayerPosition,
            ),
            (ConnectionState::Play, Direction::ServerBound, 0x05) => Some(
                PacketType::ClientPlayerLook,
            ),
            (ConnectionState::Play, Direction::ServerBound, 0x03) => Some(
                PacketType::ClientChat,
            ),
            (ConnectionState::Play, Direction::ServerBound, 0x23) => Some(
                PacketType::ClientHeldItemChange,
            ),
            (ConnectionState::Play, Direction::ServerBound, 0x06) => Some(
                PacketType::ClientPlayerPositionAndLook,
            ),
            (ConnectionState::Login, Direction::ClientBound, 0x03) => Some(
                PacketType::ServerCompressionLevelSet,
            ),
            (ConnectionState::Login, Direction::ClientBound, 0x02) => Some(
                PacketType::ServerLoginSuccess,
            ),
            (ConnectionState::Login, Direction::ClientBound, 0x01) => Some(
                PacketType::ServerEncryptionRequest,
            ),
            (ConnectionState::Play, Direction::ClientBound, 0x20) => Some(
                PacketType::ServerKeepAlive,
            ),
            (ConnectionState::Play, Direction::ClientBound, 0x4E) => Some(
                PacketType::ServerWorldTimeUpdate,
            ),
            (ConnectionState::Play, Direction::ClientBound, 0x1A) => Some(
                PacketType::ServerDisconnectPacket,
            ),
            (ConnectionState::Play, Direction::ClientBound, 0x0E) => Some(
                PacketType::ServerChatPacket,
            ),
            (ConnectionState::Play, Direction::ClientBound, 0x25) => Some(
                PacketType::ServerJoinGame,
            ),
            (ConnectionState::Play, Direction::ClientBound, 0x35) => Some(
                PacketType::ServerPlayerPositionAndLook,
            ),
            _ => None,
        };
        proof {
            if let Some(ty) = found {
                assert(PacketType::resolves_to(state, bound_to, id, ty));
                let chosen = choose|t: PacketType| PacketType::resolves_to(state, bound_to, id, t);
                assert(chosen == ty);
            }
        }
        found
    }
}

/// Looks a row of the table up by the triple that identifies it.
pub fn lookup_schema(state: ConnectionState, direction: Direction, id: i32) -> (r: Option<
    PacketSchema,
>)
    ensures
        match PacketType::resolve(state, direction, id) {
            Some(ty) => {
                &&& r matches Some(row)
                &&& row.state == state
                &&& row.direction == direction
                &&& row.id == id
                &&& row.name@ == ty.spec_name()
                &&& row.fields@ == ty.spec_fields()
            },
            None => r is None,
        },
{
    match PacketType::from_state_and_id_and_direction(state, id, direction) {
        Some(ty) => Some(ty.schema()),
        None => None,
    }
}

/// Within one state and one direction no two packets share a numeric id:
/// a triple of state, direction and id names at most one packet.
pub proof fn lemma_registry_unambiguous(a: PacketType, b: PacketType)
    requires
        a.spec_state() == b.spec_state(),
        a.spec_direction() == b.spec_direction(),
        a.spec_id() == b.spec_id(),
    ensures
        a == b,
{
}

/// Every packet of the table is found again under its own state, direction
/// and id, and a triple resolves to a packet only if it is that packet's
/// own.
pub proof fn lemma_registry_exhaustive(
    ty: PacketType,
    state: ConnectionState,
    direction: Direction,
    id: i32,
)
    ensures
        PacketType::resolve(ty.spec_state(), ty.spec_direction(), ty.spec_id()) == Some(ty),
        PacketType::resolve(state, direction, id) == Some(ty) ==> state == ty.spec_state()
            && direction == ty.spec_direction() && id == ty.spec_id(),
{
    assert(PacketType::resolves_to(ty.spec_state(), ty.spec_direction(), ty.spec_id(), ty));
    let found = choose|t: PacketType|
        PacketType::resolves_to(ty.spec_state(), ty.spec_direction(), ty.spec_id(), t);
    lemma_registry_unambiguous(found, ty);
}

} // verus!
