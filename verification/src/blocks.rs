//! Block kinds and per-block data. Each `BlockId` fixes the block's
//! properties: whether it fills its cell for meshing (`visible`), whether
//! bodies pass through it (`passable`), and how it is rendered (as the
//! six faces of a cube, as a separate mesh, or not at all). A placed
//! `Block` carries its kind, a metadata word, and the bits of the entity
//! that the renderer attached to it, zero while none is.

use vstd::prelude::*;

verus! {

/// The kind of a block.
#[derive(Copy, Clone, PartialEq, Eq, Structural, Debug, Hash)]
pub enum BlockId {
    Air,
    Dirt,
    Grass,
    Cobble,
    Stair,
    LightEmitter,
}

/// How a block is rendered: not at all, as the six faces of a unit
/// cube, or as a separate mesh asset.
#[derive(Copy, Clone, PartialEq, Eq, Structural, Debug)]
pub enum BlockRenderInfo {
    Nothing,
    AsBlock,
    AsMesh,
}

impl BlockId {
    /// The rank of the kind in the block table.
    pub fn index(&self) -> (r: u32)
        ensures
            r == self.spec_index(),
            r < 6,
    {
        match self {
            BlockId::Air => 0,
            BlockId::Dirt => 1,
            BlockId::Grass => 2,
            BlockId::Cobble => 3,
            BlockId::Stair => 4,
            BlockId::LightEmitter => 5,
        }
    }

    /// The rank of the kind in the block table.
    pub open spec fn spec_index(self) -> u32 {
        match self {
            BlockId::Air => 0,
            BlockId::Dirt => 1,
            BlockId::Grass => 2,
            BlockId::Cobble => 3,
            BlockId::Stair => 4,
            BlockId::LightEmitter => 5,
        }
    }

    /// Whether the block fills its cell: a visible block hides the
    /// touching faces of its neighbours.
    pub fn visible(&self) -> (r: bool)
        ensures
            r == self.spec_visible(),
    {
        match self {
            BlockId::Air => false,
            BlockId::Stair => false,
            _ => true,
        }
    }

    /// Whether the block fills its cell.
    pub open spec fn spec_visible(self) -> bool {
        !(self is Air || self is Stair)
    }

    /// Whether bodies pass through the block.
    pub fn passable(&self) -> (r: bool)
        ensures
            r == self.spec_passable(),
    {
        match self {
            BlockId::Air => true,
            _ => false,
        }
    }

    /// Whether bodies pass through the block.
    pub open spec fn spec_passable(self) -> bool {
        self is Air
    }

    /// How the block is rendered.
    pub fn render_info(&self) -> (r: BlockRenderInfo)
        ensures
            r == self.spec_render_info(),
    {
        match self {
            BlockId::Air => BlockRenderInfo::Nothing,
            BlockId::Stair => BlockRenderInfo::AsMesh,
            _ => BlockRenderInfo::AsBlock,
        }
    }

    /// How the block is rendered.
    pub open spec fn spec_render_info(self) -> BlockRenderInfo {
        match self {
            BlockId::Air => BlockRenderInfo::Nothing,
            BlockId::Stair => BlockRenderInfo::AsMesh,
            _ => BlockRenderInfo::AsBlock,
        }
    }
}

/// The metadata word of a placed block.
#[derive(Copy, Clone, PartialEq, Eq, Structural, Debug)]
pub struct BlockMeta {
    pub v: u32,
}

/// A placed block: its kind, its metadata word, and the bits of the
/// entity the renderer attached to it (zero while none is).
#[derive(Copy, Clone, PartialEq, Eq, Structural, Debug)]
pub struct Block {
    pub block: BlockId,
    pub meta: BlockMeta,
    pub entity: u64,
}

impl Block {
    /// A freshly placed block of kind `block`: empty metadata, no
    /// attached entity.
    pub fn new(block: BlockId) -> (r: Self)
        ensures
            r.block == block,
            r.meta.v == 0,
            r.entity == 0,
    {
        Block { block, meta: BlockMeta { v: 0 }, entity: 0 }
    }
}

} // verus!
