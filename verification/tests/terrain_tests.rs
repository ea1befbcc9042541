use voxel_stream::block::{Block, SolidBlock};
use voxel_stream::indexing::{block_in_chunk_index, chunk_buffer_index};
use voxel_stream::terrain::{ChunkData, ErrorKind, Terrain};
use voxel_stream::vec3::{IVec3, chunk_of_block};
use voxel_stream::CHUNK_VOLUME;

fn blank_chunk() -> ChunkData {
    ChunkData::from_codes(vec![0u16; CHUNK_VOLUME as usize])
}

#[test]
fn slot_index_stays_in_range() {
    for c in [
        IVec3::new(0, 0, 0),
        IVec3::new(-1, -1, -1),
        IVec3::new(1000, -1000, 31),
        IVec3::new(i32::MAX, i32::MIN, 0),
    ] {
        assert!(chunk_buffer_index(c, 3) < 7 * 7 * 7);
        assert!(chunk_buffer_index(c, 0) == 0);
    }
}

#[test]
fn slot_index_wraps_along_every_axis() {
    let c = IVec3::new(5, -9, 23);
    let base = chunk_buffer_index(c, 3);
    for k in [-2i32, -1, 1, 3] {
        assert_eq!(chunk_buffer_index(IVec3::new(c.x + k * 7, c.y, c.z), 3), base);
        assert_eq!(chunk_buffer_index(IVec3::new(c.x, c.y + k * 7, c.z), 3), base);
        assert_eq!(chunk_buffer_index(IVec3::new(c.x, c.y, c.z + k * 7), 3), base);
    }
    assert_ne!(chunk_buffer_index(IVec3::new(c.x + 1, c.y, c.z), 3), base);
}

#[test]
fn slot_index_uses_non_negative_remainders() {
    // x fastest, then y, then z, ring edge 2*3+1 = 7.
    assert_eq!(chunk_buffer_index(IVec3::new(1, 2, 3), 3), 1 + 2 * 7 + 3 * 49);
    assert_eq!(chunk_buffer_index(IVec3::new(-1, 0, 0), 3), 6);
    assert_eq!(chunk_buffer_index(IVec3::new(0, -1, 0), 3), 6 * 7);
    assert_eq!(chunk_buffer_index(IVec3::new(0, 0, -1), 3), 6 * 49);
}

#[test]
fn block_offset_is_a_bijection_on_one_chunk() {
    // Every in-chunk position maps inside [0, CHUNK_VOLUME), each
    // offset is hit exactly once.
    let mut seen = vec![false; CHUNK_VOLUME as usize];
    for z in 0..32 {
        for y in 0..32 {
            for x in 0..32 {
                let off = block_in_chunk_index(IVec3::new(x, y, z));
                assert!(off < CHUNK_VOLUME as usize);
                assert!(!seen[off]);
                seen[off] = true;
            }
        }
    }
    assert!(seen.iter().all(|&s| s));
}

#[test]
fn block_offset_is_x_fastest() {
    assert_eq!(block_in_chunk_index(IVec3::new(1, 0, 0)), 1);
    assert_eq!(block_in_chunk_index(IVec3::new(0, 1, 0)), 32);
    assert_eq!(block_in_chunk_index(IVec3::new(0, 0, 1)), 1024);
    // Block-level wraparound: the offset ignores which chunk the
    // position is in.
    assert_eq!(block_in_chunk_index(IVec3::new(33, -1, 64)), 1 + 31 * 32);
}

#[test]
fn chunk_of_block_floors_toward_negative_infinity() {
    assert_eq!(chunk_of_block(IVec3::new(0, 31, 32)), IVec3::new(0, 0, 1));
    assert_eq!(chunk_of_block(IVec3::new(-1, -32, -33)), IVec3::new(-1, -1, -2));
}

#[test]
fn place_block_updates_exactly_the_edited_code() {
    let mut t = Terrain::empty();
    let chunk_pos = IVec3::new(-1, 0, 2);
    t.upload_chunk(chunk_pos, Some(blank_chunk()), 3);

    let p = IVec3::new(-5, 17, 70);
    assert_eq!(chunk_of_block(p), chunk_pos);
    let placement = t
        .place_block(p, Block::SolidBlock(SolidBlock::Grass), 3)
        .unwrap();

    assert_eq!(placement.chunk_position, chunk_pos);
    assert_eq!(placement.chunk_buffer, chunk_buffer_index(chunk_pos, 3));
    assert_eq!(placement.block_index, block_in_chunk_index(p));
    assert_eq!(placement.byte_offset, 2 * placement.block_index);
    assert_eq!(placement.code, 1);

    let content = t.chunk_content(chunk_pos).unwrap();
    for i in 0..CHUNK_VOLUME as usize {
        let expected = if i == placement.block_index { 1 } else { 0 };
        assert_eq!(content.read_code(i), expected);
    }
}

#[test]
fn place_block_outside_loaded_chunks_fails() {
    let mut t = Terrain::empty();
    t.upload_chunk(IVec3::new(0, 0, 0), Some(blank_chunk()), 3);
    let r = t.place_block(IVec3::new(32, 0, 0), Block::Air, 3);
    assert!(matches!(r, Err(ErrorKind::ChunkNotLoaded)));
    // The store is untouched by the failed edit.
    let content = t.chunk_content(IVec3::new(0, 0, 0)).unwrap();
    assert_eq!(content.read_code(0), 0);
}

#[test]
fn upload_chunk_generates_at_most_once() {
    let mut t = Terrain::empty();
    let pos = IVec3::new(4, 4, 4);
    let mut codes = vec![0u16; CHUNK_VOLUME as usize];
    codes[0] = 42;
    let slot = t.upload_chunk(pos, Some(ChunkData::from_codes(codes)), 3);
    assert_eq!(slot, chunk_buffer_index(pos, 3));

    // A second upload for the same coordinate keeps the cached content.
    let mut other = vec![0u16; CHUNK_VOLUME as usize];
    other[0] = 99;
    let slot2 = t.upload_chunk(pos, Some(ChunkData::from_codes(other)), 3);
    assert_eq!(slot2, slot);
    assert_eq!(t.chunk_content(pos).unwrap().read_code(0), 42);

    // Re-uploading an already cached chunk needs no generated content.
    let slot3 = t.upload_chunk(pos, None, 3);
    assert_eq!(slot3, slot);
}
