//! Client-side codec and connection state machine for a length-framed,
//! stateful game protocol: variable-length integers, tagged primitive
//! values, a packet registry keyed by connection state, direction and
//! numeric id, frame-level compression, and the negotiation rules of a
//! connection.

pub mod bot;
pub mod compression;
pub mod cursor;
pub mod endian;
pub mod game;
pub mod hash;
pub mod packet;
pub mod packets;
pub mod protocol;
pub mod registry;
pub mod structs;
pub mod text;
pub mod values;
pub mod varint;
pub mod world;
