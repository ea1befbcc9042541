use voxel_stream::block::{Block, SolidBlock, TransparentBlock};
use voxel_stream::chunk::block::Block as ChunkBlock;
use voxel_stream::chunk::block::SolidBlock as ChunkSolidBlock;
use voxel_stream::chunk::block::TransparentBlock as ChunkTransparentBlock;

#[test]
fn terrain_palette_codes() {
    assert_eq!(Block::SolidBlock(SolidBlock::Grass).as_u16(), 1);
    assert_eq!(Block::SolidBlock(SolidBlock::Stone).as_u16(), 2);
    assert_eq!(Block::TransparentBlock(TransparentBlock::Glass).as_u16(), 3);
    assert_eq!(Block::Air.as_u16(), 0);
}

#[test]
fn terrain_palette_round_trips_every_variant() {
    for b in [
        Block::Air,
        Block::SolidBlock(SolidBlock::Grass),
        Block::SolidBlock(SolidBlock::Stone),
        Block::TransparentBlock(TransparentBlock::Glass),
    ] {
        assert_eq!(Block::from_u16(b.as_u16()), b);
    }
}

#[test]
fn terrain_palette_decodes_unknown_codes_to_air() {
    assert_eq!(
        Block::from_u16(3),
        Block::TransparentBlock(TransparentBlock::Glass)
    );
    assert_eq!(Block::from_u16(4), Block::Air);
    assert_eq!(Block::from_u16(u16::MAX), Block::Air);
}

#[test]
fn terrain_palette_codes_are_injective() {
    let all = [
        Block::Air,
        Block::SolidBlock(SolidBlock::Grass),
        Block::SolidBlock(SolidBlock::Stone),
        Block::TransparentBlock(TransparentBlock::Glass),
    ];
    for a in all {
        for b in all {
            if a != b {
                assert_ne!(a.as_u16(), b.as_u16());
            }
        }
    }
}

#[test]
fn chunk_palette_codes() {
    assert_eq!(ChunkBlock::SolidBlock(ChunkSolidBlock::Grass).as_u16(), 1);
    assert_eq!(
        ChunkBlock::TransparentBlock(ChunkTransparentBlock::Glass).as_u16(),
        2
    );
    assert_eq!(ChunkBlock::Air.as_u16(), 0);
}

#[test]
fn chunk_palette_round_trips_every_variant() {
    for b in [
        ChunkBlock::Air,
        ChunkBlock::SolidBlock(ChunkSolidBlock::Grass),
        ChunkBlock::TransparentBlock(ChunkTransparentBlock::Glass),
    ] {
        assert_eq!(ChunkBlock::from_u16(b.as_u16()), b);
    }
    assert_eq!(ChunkBlock::from_u16(77), ChunkBlock::Air);
}
