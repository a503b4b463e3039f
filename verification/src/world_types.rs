//! Positions and block identifiers shared by the world, renderer and game
//! modules.

use vstd::prelude::*;

verus! {

/// Block type identifier.
#[derive(Debug, Clone, Copy, PartialEq, Eq, Hash, Structural)]
pub struct BlockId(pub u16);

impl BlockId {
    /// Empty space.
    pub fn air() -> (r: BlockId)
        ensures
            r == BlockId(0),
    {
        BlockId(0)
    }

    /// Grass block.
    pub fn grass() -> (r: BlockId)
        ensures
            r == BlockId(1),
    {
        BlockId(1)
    }

    /// Dirt block.
    pub fn dirt() -> (r: BlockId)
        ensures
            r == BlockId(2),
    {
        BlockId(2)
    }

    /// Stone block.
    pub fn stone() -> (r: BlockId)
        ensures
            r == BlockId(3),
    {
        BlockId(3)
    }

    /// Wood block.
    pub fn wood() -> (r: BlockId)
        ensures
            r == BlockId(4),
    {
        BlockId(4)
    }

    /// Sand block.
    pub fn sand() -> (r: BlockId)
        ensures
            r == BlockId(5),
    {
        BlockId(5)
    }

    /// Water block.
    pub fn water() -> (r: BlockId)
        ensures
            r == BlockId(6),
    {
        BlockId(6)
    }

    /// Leaves block.
    pub fn leaves() -> (r: BlockId)
        ensures
            r == BlockId(7),
    {
        BlockId(7)
    }

    /// Glass block.
    pub fn glass() -> (r: BlockId)
        ensures
            r == BlockId(8),
    {
        BlockId(8)
    }

    /// Lava block.
    pub fn lava() -> (r: BlockId)
        ensures
            r == BlockId(9),
    {
        BlockId(9)
    }
}

/// Position of a chunk, in chunk units.
#[derive(Debug, Clone, Copy, PartialEq, Eq, Hash, Structural)]
pub struct ChunkPos {
    pub x: i32,
    pub y: i32,
    pub z: i32,
}

impl ChunkPos {
    /// The chunk position with the given coordinates.
    pub fn new(x: i32, y: i32, z: i32) -> (r: ChunkPos)
        ensures
            r == (ChunkPos { x, y, z }),
    {
        ChunkPos { x, y, z }
    }
}

/// Position of a voxel, in voxel units.
#[derive(Debug, Clone, Copy, PartialEq, Eq, Hash, Structural)]
pub struct VoxelPos {
    pub x: i32,
    pub y: i32,
    pub z: i32,
}

impl VoxelPos {
    /// The voxel position with the given coordinates.
    pub fn new(x: i32, y: i32, z: i32) -> (r: VoxelPos)
        ensures
            r == (VoxelPos { x, y, z }),
    {
        VoxelPos { x, y, z }
    }
}

/// Which world generator the engine uses.
#[derive(Debug, Clone)]
pub enum WorldGeneratorType {
    Default,
    DangerMoney,
    Custom(String),
}

} // verus!
