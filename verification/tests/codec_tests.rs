use voxel_stream::load_store::Serializeable;
use voxel_stream::terrain::{ChunkData, ErrorKind, Terrain, CHUNK_DATA_BYTES, RECORD_BYTES};
use voxel_stream::vec3::IVec3;
use voxel_stream::CHUNK_VOLUME;

fn flat_codes(first: &[u16]) -> Vec<u16> {
    let mut codes = vec![0u16; CHUNK_VOLUME as usize];
    codes[..first.len()].copy_from_slice(first);
    codes
}

#[test]
fn vec3_serializes_little_endian() {
    let v = IVec3::new(1, -2, 0x0102_0304);
    let bytes = v.serialize();
    assert_eq!(
        bytes,
        vec![
            1, 0, 0, 0, // x = 1
            0xfe, 0xff, 0xff, 0xff, // y = -2, two's complement
            0x04, 0x03, 0x02, 0x01, // z, little-endian
        ]
    );
}

#[test]
fn vec3_round_trips() {
    for v in [
        IVec3::new(0, 0, 0),
        IVec3::new(-1, i32::MAX, i32::MIN),
        IVec3::new(123, -456, 789),
    ] {
        assert_eq!(IVec3::deserialize(&v.serialize()), v);
    }
}

#[test]
fn chunk_data_serializes_big_endian() {
    let d = ChunkData::from_codes(flat_codes(&[0x0102, 0xbeef]));
    let bytes = d.serialize();
    assert_eq!(bytes.len(), CHUNK_DATA_BYTES);
    assert_eq!(&bytes[..4], &[0x01, 0x02, 0xbe, 0xef]);
    assert!(bytes[4..].iter().all(|&b| b == 0));
}

#[test]
fn chunk_data_round_trips() {
    let mut codes = vec![0u16; CHUNK_VOLUME as usize];
    for (i, c) in codes.iter_mut().enumerate() {
        *c = (i % 65536) as u16;
    }
    let d = ChunkData::from_codes(codes.clone());
    let back = ChunkData::deserialize(&d.serialize());
    for (i, c) in codes.iter().enumerate() {
        assert_eq!(back.read_code(i), *c);
    }
}

#[test]
fn save_load_round_trips_store() {
    let mut t = Terrain::empty();
    let a = IVec3::new(0, 0, 0);
    let b = IVec3::new(-3, 7, 12);
    t.upload_chunk(a, Some(ChunkData::from_codes(flat_codes(&[1, 2, 3]))), 3);
    t.upload_chunk(b, Some(ChunkData::from_codes(flat_codes(&[9, 8]))), 3);

    let bytes = t.save();
    assert_eq!(bytes.len(), 2 * RECORD_BYTES);

    let loaded = Terrain::load(&bytes).unwrap();
    for (pos, first) in [(a, [1u16, 2, 3]), (b, [9u16, 8, 0])] {
        assert!(loaded.contains_chunk(pos));
        let content = loaded.chunk_content(pos).unwrap();
        let saved = t.chunk_content(pos).unwrap();
        for i in 0..CHUNK_VOLUME as usize {
            assert_eq!(content.read_code(i), saved.read_code(i));
        }
        for (i, c) in first.iter().enumerate() {
            assert_eq!(content.read_code(i), *c);
        }
    }
    assert!(!loaded.contains_chunk(IVec3::new(1, 1, 1)));
}

#[test]
fn load_of_empty_stream_is_empty_store() {
    let t = Terrain::load(&[]).unwrap();
    assert!(!t.contains_chunk(IVec3::new(0, 0, 0)));
}

#[test]
fn load_rejects_truncated_stream() {
    let mut t = Terrain::empty();
    t.upload_chunk(IVec3::new(0, 0, 0), Some(ChunkData::from_codes(flat_codes(&[5]))), 3);
    let mut bytes = t.save();
    bytes.pop();
    assert!(matches!(Terrain::load(&bytes), Err(ErrorKind::CodecError)));
    assert!(matches!(Terrain::load(&[0u8; 11]), Err(ErrorKind::CodecError)));
}

#[test]
fn load_lets_later_record_win() {
    let mut first = Terrain::empty();
    first.upload_chunk(IVec3::new(2, 2, 2), Some(ChunkData::from_codes(flat_codes(&[1]))), 3);
    let mut second = Terrain::empty();
    second.upload_chunk(IVec3::new(2, 2, 2), Some(ChunkData::from_codes(flat_codes(&[7]))), 3);

    let mut bytes = first.save();
    bytes.extend_from_slice(&second.save());
    let loaded = Terrain::load(&bytes).unwrap();
    assert_eq!(loaded.chunk_content(IVec3::new(2, 2, 2)).unwrap().read_code(0), 7);
}
