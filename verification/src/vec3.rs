//! Integer 3-vectors: chunk coordinates and block positions.

use vstd::prelude::*;

verus! {

use vstd::bytes::{
    lemma_auto_spec_u32_to_from_le_bytes,
    spec_u32_from_le_bytes,
    spec_u32_to_le_bytes,
    u32_from_le_bytes,
    u32_to_le_bytes,
};
use vstd::slice::slice_subrange;

use crate::CHUNK_SIZE;
use crate::load_store::Serializeable;

/// An integer 3-vector. Chunk coordinates and world block positions are
/// both carried as `IVec3`; a chunk coordinate is a block position divided
/// by the chunk edge length with flooring (not truncating) division.
#[derive(Clone, Copy, Debug, PartialEq, Eq, Hash, Structural)]
pub struct IVec3 {
    pub x: i32,
    pub y: i32,
    pub z: i32,
}

impl IVec3 {
    pub fn new(x: i32, y: i32, z: i32) -> (r: IVec3)
        ensures
            r == (IVec3 { x, y, z }),
    {
        IVec3 { x, y, z }
    }
}

/// Byte width of an encoded `IVec3`: three little-endian 32-bit values.
pub const VEC3_BYTES: usize = 12;

impl Serializeable for IVec3 {
    /// Every `IVec3` is encodable.
    open spec fn wf(&self) -> bool {
        true
    }

    open spec fn spec_len() -> int {
        VEC3_BYTES as int
    }

    /// x, y, z in order, each as four little-endian bytes of the axis
    /// value's two's-complement bit pattern.
    open spec fn spec_serialize(&self) -> Seq<u8> {
        spec_u32_to_le_bytes(self.x as u32) + spec_u32_to_le_bytes(self.y as u32)
            + spec_u32_to_le_bytes(self.z as u32)
    }

    proof fn lemma_serialized_len(&self) {
        lemma_auto_spec_u32_to_from_le_bytes();
    }

    fn serialize(&self) -> (r: Vec<u8>) {
        let mut r = u32_to_le_bytes(self.x as u32);
        let mut yb = u32_to_le_bytes(self.y as u32);
        let mut zb = u32_to_le_bytes(self.z as u32);
        r.append(&mut yb);
        r.append(&mut zb);
        r
    }

    fn deserialize(data: &[u8]) -> (r: Self) {
        let x = u32_from_le_bytes(slice_subrange(data, 0, 4)) as i32;
        let y = u32_from_le_bytes(slice_subrange(data, 4, 8)) as i32;
        let z = u32_from_le_bytes(slice_subrange(data, 8, 12)) as i32;
        let r = IVec3 { x, y, z };
        proof {
            lemma_auto_spec_u32_to_from_le_bytes();
            let bx = data@.subrange(0, 4);
            let by = data@.subrange(4, 8);
            let bz = data@.subrange(8, 12);
            let vx: u32 = spec_u32_from_le_bytes(bx);
            let vy: u32 = spec_u32_from_le_bytes(by);
            let vz: u32 = spec_u32_from_le_bytes(bz);
            assert(x as u32 == vx) by (bit_vector)
                requires
                    x == vx as i32,
            ;
            assert(y as u32 == vy) by (bit_vector)
                requires
                    y == vy as i32,
            ;
            assert(z as u32 == vz) by (bit_vector)
                requires
                    z == vz as i32,
            ;
            assert(r.spec_serialize() =~= data@);
        }
        r
    }
}

/// The `IVec3` a 12-byte block decodes to: three little-endian 32-bit
/// axis values in x, y, z order.
pub open spec fn spec_vec3_from_bytes(b: Seq<u8>) -> IVec3 {
    IVec3 {
        x: spec_u32_from_le_bytes(b.subrange(0, 4)) as i32,
        y: spec_u32_from_le_bytes(b.subrange(4, 8)) as i32,
        z: spec_u32_from_le_bytes(b.subrange(8, 12)) as i32,
    }
}

/// Decoding an encoded `IVec3` restores the vector.
pub proof fn lemma_vec3_decode_encode(v: IVec3)
    ensures
        spec_vec3_from_bytes(v.spec_serialize()) == v,
{
    lemma_auto_spec_u32_to_from_le_bytes();
    let b = v.spec_serialize();
    assert(b.subrange(0, 4) =~= spec_u32_to_le_bytes(v.x as u32));
    assert(b.subrange(4, 8) =~= spec_u32_to_le_bytes(v.y as u32));
    assert(b.subrange(8, 12) =~= spec_u32_to_le_bytes(v.z as u32));
    let x = v.x;
    let y = v.y;
    let z = v.z;
    assert(x as u32 as i32 == x) by (bit_vector);
    assert(y as u32 as i32 == y) by (bit_vector);
    assert(z as u32 as i32 == z) by (bit_vector);
}

/// Encoding a decoded 12-byte block restores the bytes.
pub proof fn lemma_vec3_encode_decode(b: Seq<u8>)
    requires
        b.len() == 12,
    ensures
        spec_vec3_from_bytes(b).spec_serialize() == b,
{
    lemma_auto_spec_u32_to_from_le_bytes();
    let v = spec_vec3_from_bytes(b);
    let vx: u32 = spec_u32_from_le_bytes(b.subrange(0, 4));
    let vy: u32 = spec_u32_from_le_bytes(b.subrange(4, 8));
    let vz: u32 = spec_u32_from_le_bytes(b.subrange(8, 12));
    assert(vx as i32 as u32 == vx) by (bit_vector);
    assert(vy as i32 as u32 == vy) by (bit_vector);
    assert(vz as i32 as u32 == vz) by (bit_vector);
    assert(v.spec_serialize() =~= b);
}

/// The `IVec3` encoding is injective: two vectors with the same encoded
/// bytes are the same vector.
pub proof fn lemma_vec3_serialize_injective(a: IVec3, b: IVec3)
    requires
        a.spec_serialize() == b.spec_serialize(),
    ensures
        a == b,
{
    lemma_auto_spec_u32_to_from_le_bytes();
    assert(a.spec_serialize().subrange(0, 4) =~= spec_u32_to_le_bytes(a.x as u32));
    assert(a.spec_serialize().subrange(4, 8) =~= spec_u32_to_le_bytes(a.y as u32));
    assert(a.spec_serialize().subrange(8, 12) =~= spec_u32_to_le_bytes(a.z as u32));
    assert(b.spec_serialize().subrange(0, 4) =~= spec_u32_to_le_bytes(b.x as u32));
    assert(b.spec_serialize().subrange(4, 8) =~= spec_u32_to_le_bytes(b.y as u32));
    assert(b.spec_serialize().subrange(8, 12) =~= spec_u32_to_le_bytes(b.z as u32));
    assert(a.x as u32 == b.x as u32 && a.y as u32 == b.y as u32 && a.z as u32 == b.z as u32);
    let ax = a.x;
    let bx = b.x;
    let ay = a.y;
    let by = b.y;
    let az = a.z;
    let bz = b.z;
    assert(ax == bx) by (bit_vector)
        requires
            ax as u32 == bx as u32,
    ;
    assert(ay == by) by (bit_vector)
        requires
            ay as u32 == by as u32,
    ;
    assert(az == bz) by (bit_vector)
        requires
            az as u32 == bz as u32,
    ;
}

/// Floor division of one coordinate axis by the chunk edge length.
/// In spec arithmetic `/` is Euclidean division, which coincides with
/// flooring division for a positive divisor.
pub open spec fn spec_chunk_axis(v: int) -> int {
    v / (CHUNK_SIZE as int)
}

/// The chunk coordinate owning a world block position: each axis is
/// divided by the chunk edge length, rounding toward negative infinity.
pub open spec fn spec_chunk_of_block(p: IVec3) -> IVec3 {
    IVec3 {
        x: spec_chunk_axis(p.x as int) as i32,
        y: spec_chunk_axis(p.y as int) as i32,
        z: spec_chunk_axis(p.z as int) as i32,
    }
}

/// The chunk that owns a world block position (floor division by the
/// chunk edge length on every axis).
pub fn chunk_of_block(p: IVec3) -> (r: IVec3)
    ensures
        r == spec_chunk_of_block(p),
{
    let cs: i32 = CHUNK_SIZE as i32;
    proof {
        assert(i32::MIN <= p.x as int / (cs as int) <= i32::MAX);
        assert(i32::MIN <= p.y as int / (cs as int) <= i32::MAX);
        assert(i32::MIN <= p.z as int / (cs as int) <= i32::MAX);
    }
    IVec3 {
        x: p.x.checked_div_euclid(cs).unwrap(),
        y: p.y.checked_div_euclid(cs).unwrap(),
        z: p.z.checked_div_euclid(cs).unwrap(),
    }
}

} // verus!
