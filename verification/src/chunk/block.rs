//! The block palette used by the dense in-memory chunk representation.
//!
//! This palette carries categories only: its codes distinguish solid,
//! transparent and air, and decoding picks a canonical variant of each
//! category, so encoding and decoding round-trip over the whole palette.

use vstd::prelude::*;

verus! {

/// Opaque block variants of the dense chunk palette.
#[derive(Clone, Copy, Debug, PartialEq, Eq, Structural)]
pub enum SolidBlock {
    Grass,
}

/// See-through block variants of the dense chunk palette.
#[derive(Clone, Copy, Debug, PartialEq, Eq, Structural)]
pub enum TransparentBlock {
    Glass,
}

/// A block of the dense chunk representation.
#[derive(Clone, Copy, Debug, PartialEq, Eq, Structural)]
pub enum Block {
    SolidBlock(SolidBlock),
    TransparentBlock(TransparentBlock),
    Air,
}

/// The 16-bit code of each category: solid `1`, transparent `2`, air `0`.
pub open spec fn spec_as_u16(b: Block) -> u16 {
    match b {
        Block::SolidBlock(_) => 1,
        Block::TransparentBlock(_) => 2,
        Block::Air => 0,
    }
}

/// The block a 16-bit code decodes to; codes without a mapping decode
/// to air.
pub open spec fn spec_from_u16(value: u16) -> Block {
    if value == 1 {
        Block::SolidBlock(SolidBlock::Grass)
    } else if value == 2 {
        Block::TransparentBlock(TransparentBlock::Glass)
    } else {
        Block::Air
    }
}

impl Block {
    /// Encodes this block as its 16-bit category code.
    pub fn as_u16(&self) -> (r: u16)
        ensures
            r == spec_as_u16(*self),
    {
        match self {
            Block::SolidBlock(_) => 1,
            Block::TransparentBlock(_) => 2,
            Block::Air => 0,
        }
    }

    /// Decodes a 16-bit code into a block.
    pub fn from_u16(value: u16) -> (r: Block)
        ensures
            r == spec_from_u16(value),
    {
        match value {
            1 => Block::SolidBlock(SolidBlock::Grass),
            2 => Block::TransparentBlock(TransparentBlock::Glass),
            _ => Block::Air,
        }
    }
}

/// Decoding undoes encoding for every block of this palette.
pub proof fn lemma_block_code_round_trip(b: Block)
    ensures
        spec_from_u16(spec_as_u16(b)) == b,
{
}

/// The encoding is injective over this palette.
pub proof fn lemma_as_u16_injective(a: Block, b: Block)
    requires
        spec_as_u16(a) == spec_as_u16(b),
    ensures
        a == b,
{
}

} // verus!
