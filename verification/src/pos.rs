//! The position of a chunk in the horizontal grid.

use vstd::prelude::*;
use vstd::std_specs::convert::FromSpecImpl;

verus! {

/// The x and z position of a chunk, counted in chunks.
#[derive(Clone, Copy, Debug, PartialEq, Eq, Structural, Hash)]
pub struct ChunkPos {
    /// The x position of the chunk.
    pub x: i32,
    /// The z position of the chunk.
    pub z: i32,
}

impl ChunkPos {
    /// The position `(x, z)`.
    pub fn new(x: i32, z: i32) -> (pos: ChunkPos)
        ensures
            pos == (ChunkPos { x, z }),
    {
        ChunkPos { x, z }
    }
}

impl From<(i32, i32)> for ChunkPos {
    fn from(pair: (i32, i32)) -> (pos: ChunkPos) {
        ChunkPos { x: pair.0, z: pair.1 }
    }
}

impl FromSpecImpl<(i32, i32)> for ChunkPos {
    open spec fn obeys_from_spec() -> bool {
        true
    }

    open spec fn from_spec(pair: (i32, i32)) -> ChunkPos {
        ChunkPos { x: pair.0, z: pair.1 }
    }
}

impl From<[i32; 2]> for ChunkPos {
    fn from(pair: [i32; 2]) -> (pos: ChunkPos) {
        ChunkPos { x: pair[0], z: pair[1] }
    }
}

impl FromSpecImpl<[i32; 2]> for ChunkPos {
    open spec fn obeys_from_spec() -> bool {
        true
    }

    open spec fn from_spec(pair: [i32; 2]) -> ChunkPos {
        ChunkPos { x: pair[0], z: pair[1] }
    }
}

} // verus!
