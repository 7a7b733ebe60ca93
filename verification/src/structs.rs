//! Block positions out of a packed word.

use crate::values::{pack_position, position_in_range, unpack_position};
use vstd::prelude::*;

verus! {

/// A block position: three signed coordinates.
#[derive(Debug, Copy, Clone, PartialEq, Eq, Structural)]
pub struct Location {
    pub x: i64,
    pub y: i64,
    pub z: i64,
}

impl Location {
    /// Splits a packed word into its coordinates: `x` is the 26 bits from
    /// bit 38 up, `y` the 12 bits from bit 26 up, `z` the 26 bits from bit
    /// 0 up, each extended by its sign. The coordinates fit their bits,
    /// and packing them gives the word back.
    pub fn from_long(val: u64) -> (r: Location)
        ensures
            (r.x, r.y, r.z) == unpack_position(val as i64),
            position_in_range(r.x, r.y, r.z),
            pack_position(r.x, r.y, r.z) == val as i64,
    {
        let word = val as i64;
        let x = word >> 38;
        let y = (word << 26) >> 52;
        let z = (word << 38) >> 38;
        assert(-0x200_0000 <= x < 0x200_0000 && -0x800 <= y < 0x800 && -0x200_0000 <= z
            < 0x200_0000 && ((x & 0x3FFFFFF) << 38) | ((y & 0xFFF) << 26) | (z & 0x3FFFFFF)
            == word) by (bit_vector)
            requires
                x == word >> 38,
                y == (word << 26) >> 52,
                z == (word << 38) >> 38,
        ;
        Location { x, y, z }
    }
}

/// Something in the world: its id and where it is.
#[derive(Debug, Copy, Clone, PartialEq, Eq, Structural)]
pub struct Entity {
    pub id: u32,
    pub position: Location,
}

} // verus!
