//! The block palette used by the terrain store and the edit path.
//!
//! Block identities travel to the GPU as 16-bit codes; `0` is reserved
//! for air. The encoding is total and reversible over the whole
//! palette: every defined variant decodes back to itself. Decoding is
//! total on `u16` as well — codes without a mapping decode to air.

use vstd::prelude::*;

verus! {

/// Opaque block variants.
#[derive(Clone, Copy, Debug, PartialEq, Eq, Structural)]
pub enum SolidBlock {
    Grass,
    Stone,
}

/// See-through block variants.
#[derive(Clone, Copy, Debug, PartialEq, Eq, Structural)]
pub enum TransparentBlock {
    Glass,
}

/// A block as the terrain store and the edit path know it.
#[derive(Clone, Copy, Debug, PartialEq, Eq, Structural)]
pub enum Block {
    SolidBlock(SolidBlock),
    TransparentBlock(TransparentBlock),
    Air,
}

/// The 16-bit code of each block variant.
pub open spec fn spec_as_u16(b: Block) -> u16 {
    match b {
        Block::SolidBlock(SolidBlock::Grass) => 1,
        Block::SolidBlock(SolidBlock::Stone) => 2,
        Block::TransparentBlock(_) => 3,
        Block::Air => 0,
    }
}

/// The block variant a 16-bit code decodes to. Every code produced by
/// the encoding decodes back to its variant; codes without a mapping
/// decode to air.
pub open spec fn spec_from_u16(value: u16) -> Block {
    if value == 1 {
        Block::SolidBlock(SolidBlock::Grass)
    } else if value == 2 {
        Block::SolidBlock(SolidBlock::Stone)
    } else if value == 3 {
        Block::TransparentBlock(TransparentBlock::Glass)
    } else {
        Block::Air
    }
}

impl Block {
    /// Encodes this block as its 16-bit GPU code.
    pub fn as_u16(&self) -> (r: u16)
        ensures
            r == spec_as_u16(*self),
    {
        match self {
            Block::SolidBlock(SolidBlock::Grass) => 1,
            Block::SolidBlock(SolidBlock::Stone) => 2,
            Block::TransparentBlock(_) => 3,
            _ => 0,
        }
    }

    /// Decodes a 16-bit code into a block.
    pub fn from_u16(value: u16) -> (r: Block)
        ensures
            r == spec_from_u16(value),
    {
        match value {
            1 => Block::SolidBlock(SolidBlock::Grass),
            2 => Block::SolidBlock(SolidBlock::Stone),
            3 => Block::TransparentBlock(TransparentBlock::Glass),
            _ => Block::Air,
        }
    }
}

/// The encoding is injective over the whole palette: two blocks with the
/// same code are the same block.
pub proof fn lemma_as_u16_injective(a: Block, b: Block)
    requires
        spec_as_u16(a) == spec_as_u16(b),
    ensures
        a == b,
{
}

/// Decoding undoes encoding for every block of the palette: the code
/// table is reversible.
pub proof fn lemma_block_code_round_trip(b: Block)
    ensures
        spec_from_u16(spec_as_u16(b)) == b,
{
}

} // verus!
