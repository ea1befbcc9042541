use voxel_stream::chunk::block::{Block, SolidBlock, TransparentBlock};
use voxel_stream::chunk::Chunk;
use voxel_stream::CHUNK_VOLUME;

#[test]
fn raw_data_round_trips_through_the_cube() {
    let mut raw = vec![0u16; CHUNK_VOLUME as usize];
    // x-fastest flat index of (x, y, z) is x + 32*y + 1024*z.
    raw[1] = 1; // (1, 0, 0) solid
    raw[32] = 2; // (0, 1, 0) transparent
    raw[1024] = 1; // (0, 0, 1) solid
    raw[1 + 2 * 32 + 3 * 1024] = 2;

    let chunk = Chunk::from_raw_data(&raw);
    let back = chunk.to_raw_data();
    assert_eq!(back, raw);
}

#[test]
fn from_raw_data_decodes_codes_in_x_fastest_order() {
    let mut raw = vec![0u16; CHUNK_VOLUME as usize];
    raw[5 + 6 * 32 + 7 * 1024] = 1;
    let chunk = Chunk::from_raw_data(&raw);
    let back = chunk.to_raw_data();
    for (i, code) in back.iter().enumerate() {
        let expected = if i == 5 + 6 * 32 + 7 * 1024 { 1 } else { 0 };
        assert_eq!(*code, expected);
    }
}

#[test]
fn unknown_codes_normalise_to_air() {
    let mut raw = vec![0u16; CHUNK_VOLUME as usize];
    raw[0] = 999; // no palette entry: decodes to air
    raw[1] = 2;
    let chunk = Chunk::from_raw_data(&raw);
    let back = chunk.to_raw_data();
    assert_eq!(back[0], 0);
    assert_eq!(back[1], 2);
}

#[test]
fn palette_codes_match_raw_values() {
    assert_eq!(Block::SolidBlock(SolidBlock::Grass).as_u16(), 1);
    assert_eq!(Block::TransparentBlock(TransparentBlock::Glass).as_u16(), 2);
    assert_eq!(Block::Air.as_u16(), 0);
}
