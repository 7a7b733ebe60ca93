//! The shape of world data. Only a section of block ids holds anything
//! yet.

use vstd::prelude::*;

verus! {

/// The id of one block.
#[derive(Debug, Copy, Clone, PartialEq, Eq, Structural)]
pub struct ChunkBlockID(pub u8);

impl From<u8> for ChunkBlockID {
    fn from(id: u8) -> (r: ChunkBlockID) {
        ChunkBlockID(id)
    }
}

impl vstd::std_specs::convert::FromSpecImpl<u8> for ChunkBlockID {
    open spec fn obeys_from_spec() -> bool {
        true
    }

    open spec fn from_spec(id: u8) -> ChunkBlockID {
        ChunkBlockID(id)
    }
}

pub struct BiomeData {}

/// The block ids of a section of sixteen blocks along each axis.
pub struct ChunkData {
    block_ids: [[[ChunkBlockID; 16]; 16]; 16],
}

impl ChunkData {
    /// The id of the block at the given place of the section.
    pub closed spec fn block(&self, x: int, y: int, z: int) -> ChunkBlockID {
        self.block_ids[x][y][z]
    }

    /// A section in which every block has id zero.
    pub fn new() -> (r: ChunkData)
        ensures
            forall|x: int, y: int, z: int|
                0 <= x < 16 && 0 <= y < 16 && 0 <= z < 16 ==> (#[trigger] r.block(x, y, z)).0 == 0,
    {
        ChunkData { block_ids: [[[ChunkBlockID(0); 16]; 16]; 16] }
    }

    /// The id of the block at `index`, or `None` where the index leaves
    /// the section.
    pub fn get(&self, index: (usize, usize, usize)) -> (r: Option<ChunkBlockID>)
        ensures
            r == (if index.0 < 16 && index.1 < 16 && index.2 < 16 {
                Some(self.block(index.0 as int, index.1 as int, index.2 as int))
            } else {
                None
            }),
    {
        if index.0 < 16 && index.1 < 16 && index.2 < 16 {
            Some(self.block_ids[index.0][index.1][index.2])
        } else {
            None
        }
    }
}

pub struct ChunkNibbleData {}

pub struct ChunkColumn {}

pub struct Chunk {}

pub struct World {}

} // verus!
