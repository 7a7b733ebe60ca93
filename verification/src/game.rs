//! The negotiated data of one connection.

use crate::packet::Packet;
use vstd::prelude::*;

verus! {

/// The protocol phase, which decides what a numeric packet id means.
#[derive(Debug, Copy, Clone, PartialEq, Eq, Structural)]
pub enum ConnectionState {
    Handshake,
    Status,
    Login,
    Play,
}

impl ConnectionState {
    /// How far a connection in this state has come: a connection never
    /// moves to a state of lower rank.
    pub open spec fn rank(self) -> nat {
        match self {
            ConnectionState::Handshake => 0,
            ConnectionState::Status => 1,
            ConnectionState::Login => 1,
            ConnectionState::Play => 2,
        }
    }
}

/// Whether frames carry the compression preamble, and above which payload
/// size they are deflated.
#[derive(Debug, Copy, Clone, PartialEq, Eq, Structural)]
pub enum CompressionStatus {
    Disabled,
    Enabled(i32),
}

/// The address of a server: its IPv4 address as one number, the first
/// octet in the most significant byte, and its TCP port.
#[derive(Debug, Copy, Clone, PartialEq, Eq, Structural)]
pub struct ServerAddress {
    pub ip: u32,
    pub port: u16,
}

/// The session record of one connection. The socket itself lives with
/// whoever performs the I/O.
#[derive(Debug, Clone, PartialEq, Eq)]
pub struct MinecraftConnection {
    pub server_address: ServerAddress,
    pub player_name: String,
    pub state: ConnectionState,
    pub compression: CompressionStatus,
}

impl MinecraftConnection {
    /// A connection that has not negotiated anything yet: it is about to
    /// log in, and frames are not compressed.
    pub fn new(server_address: ServerAddress, player_name: String) -> (c: MinecraftConnection)
        ensures
            c.server_address == server_address,
            c.player_name == player_name,
            c.state == ConnectionState::Login,
            c.compression == CompressionStatus::Disabled,
    {
        MinecraftConnection {
            server_address,
            player_name,
            state: ConnectionState::Login,
            compression: CompressionStatus::Disabled,
        }
    }
}

/// What a connection makes of a packet that has come in.
#[derive(Debug, Clone, PartialEq, Eq)]
pub enum Reaction {
    /// The connection has taken over the compression threshold; from the
    /// next frame on, frames carry the compression preamble.
    CompressionEnabled { threshold: i32 },
    /// A threshold had been negotiated before. The connection keeps it and
    /// refuses the one requested now.
    NegotiationConflict { kept: i32, requested: i32 },
    /// The login has succeeded and the connection is in the play state.
    LoggedIn,
    /// The packet is to be answered with this one.
    Reply(Packet),
    /// The packet changes nothing in the connection and asks for no
    /// answer: it is for the application.
    Deliver,
}

/// The state of a connection after it has seen `packet` in `state`: a
/// login success moves a connection that is logging in on to play, and
/// nothing else moves it.
pub open spec fn state_after(state: ConnectionState, packet: Packet) -> ConnectionState {
    match packet {
        Packet::ServerLoginSuccess { .. } => if state == ConnectionState::Login {
            ConnectionState::Play
        } else {
            state
        },
        _ => state,
    }
}

/// The compression status of a connection after it has seen `packet` in
/// `state`: a threshold is taken over once, while logging in, and kept
/// from then on.
pub open spec fn compression_after(
    state: ConnectionState,
    compression: CompressionStatus,
    packet: Packet,
) -> CompressionStatus {
    match packet {
        Packet::ServerCompressionLevelSet { compression_level } => if state
            == ConnectionState::Login && compression == CompressionStatus::Disabled {
            CompressionStatus::Enabled(compression_level)
        } else {
            compression
        },
        _ => compression,
    }
}

/// What a connection in `state` with `compression` makes of `packet`.
pub open spec fn reaction_to(
    state: ConnectionState,
    compression: CompressionStatus,
    packet: Packet,
) -> Reaction {
    match packet {
        Packet::ServerCompressionLevelSet { compression_level } => match compression {
            CompressionStatus::Enabled(kept) => Reaction::NegotiationConflict {
                kept,
                requested: compression_level,
            },
            CompressionStatus::Disabled => if state == ConnectionState::Login {
                Reaction::CompressionEnabled { threshold: compression_level }
            } else {
                Reaction::Deliver
            },
        },
        Packet::ServerLoginSuccess { .. } => if state == ConnectionState::Login {
            Reaction::LoggedIn
        } else {
            Reaction::Deliver
        },
        Packet::ServerKeepAlive { magic } => Reaction::Reply(Packet::ClientKeepAlive { magic }),
        _ => Reaction::Deliver,
    }
}

impl MinecraftConnection {
    /// The packets that open a session, in the order in which they are
    /// sent: the handshake, which names the host and the server's port,
    /// and then the player's name.
    pub fn opening(&self, host_address: String) -> (r: Vec<Packet>)
        ensures
            r@.len() == 2,
            r@[0] == (Packet::ClientHandshake { host_address, port: self.server_address.port }),
            r@[1]@ == (Packet::ClientJoin { player_name: self.player_name })@,
    {
        let port = self.server_address.port;
        let player_name = self.player_name.clone();
        let mut packets: Vec<Packet> = Vec::new();
        packets.push(Packet::ClientHandshake { host_address, port });
        packets.push(Packet::ClientJoin { player_name });
        packets
    }

    /// Takes note of a packet that has come in: negotiates compression
    /// and the move to the play state, and answers a keep-alive with its
    /// own magic value. Nothing else changes the connection.
    pub fn receive(&mut self, packet: &Packet) -> (r: Reaction)
        ensures
            final(self).server_address == old(self).server_address,
            final(self).player_name == old(self).player_name,
            final(self).state == state_after(old(self).state, *packet),
            final(self).compression == compression_after(
                old(self).state,
                old(self).compression,
                *packet,
            ),
            r == reaction_to(old(self).state, old(self).compression, *packet),
            final(self).state.rank() >= old(self).state.rank(),
            old(self).compression is Enabled ==> final(self).compression == old(self).compression,
    {
        match packet {
            Packet::ServerCompressionLevelSet { compression_level } => match self.compression {
                CompressionStatus::Enabled(kept) => Reaction::NegotiationConflict {
                    kept,
                    requested: *compression_level,
                },
                CompressionStatus::Disabled => match self.state {
                    ConnectionState::Login => {
                        self.compression = CompressionStatus::Enabled(*compression_level);
                        Reaction::CompressionEnabled { threshold: *compression_level }
                    },
                    _ => Reaction::Deliver,
                },
            },
            Packet::ServerLoginSuccess { .. } => match self.state {
                ConnectionState::Login => {
                    self.state = ConnectionState::Play;
                    Reaction::LoggedIn
                },
                _ => Reaction::Deliver,
            },
            Packet::ServerKeepAlive { magic } => Reaction::Reply(
                Packet::ClientKeepAlive { magic: *magic },
            ),
            _ => Reaction::Deliver,
        }
    }
}

/// A connection never moves back: whatever packet it sees, its state is
/// of no lower rank afterwards, and a threshold once negotiated stays.
pub proof fn lemma_connection_moves_forward(
    state: ConnectionState,
    compression: CompressionStatus,
    packet: Packet,
)
    ensures
        state_after(state, packet).rank() >= state.rank(),
        state_after(state, packet) != state ==> state == ConnectionState::Login && state_after(
            state,
            packet,
        ) == ConnectionState::Play,
        compression is Enabled ==> compression_after(state, compression, packet) == compression,
        compression_after(state, compression, packet) != compression ==> state
            == ConnectionState::Login && packet is ServerCompressionLevelSet,
{
}

} // verus!
