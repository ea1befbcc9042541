//! Toroidal slot indexing.
//!
//! A fixed pool of `(2*R+1)^3` GPU buffer slots (R = render distance)
//! backs the unbounded chunk grid: a chunk coordinate is mapped onto a
//! slot by taking the non-negative remainder of each axis modulo the
//! ring edge `2*R+1` and linearising with x fastest, then y, then z.
//! The same scheme, with the chunk edge length as modulus, gives the
//! linear offset of a block inside one chunk's data array.

use vstd::prelude::*;

verus! {

use vstd::arithmetic::div_mod::{lemma_mod_bound, lemma_mod_multiples_vanish};

use crate::CHUNK_SIZE;
use crate::CHUNK_VOLUME;
use crate::vec3::IVec3;

/// Edge length of the slot ring: the number of distinct slot coordinates
/// per axis for a given render distance.
pub open spec fn spec_ring_edge(render_distance: u8) -> int {
    2 * render_distance + 1
}

/// Total number of slots in the ring.
pub open spec fn spec_ring_volume(render_distance: u8) -> int {
    spec_ring_edge(render_distance) * spec_ring_edge(render_distance) * spec_ring_edge(
        render_distance,
    )
}

/// The slot index of a chunk coordinate: non-negative remainder of each
/// axis modulo the ring edge, linearised x fastest, then y, then z.
/// In spec arithmetic `%` is the Euclidean remainder, which is already
/// non-negative for a positive modulus.
pub open spec fn spec_chunk_buffer_index(x: int, y: int, z: int, render_distance: u8) -> int {
    let s = spec_ring_edge(render_distance);
    (x % s) + (y % s) * s + (z % s) * s * s
}

/// The linear offset of a world block position inside its owning chunk's
/// data array: non-negative remainder of each axis modulo the chunk edge
/// length, linearised x fastest, then y, then z.
pub open spec fn spec_block_in_chunk_index(x: int, y: int, z: int) -> int {
    let cs = CHUNK_SIZE as int;
    (x % cs) + (y % cs) * cs + (z % cs) * cs * cs
}

/// The slot index is always a valid index into the slot pool.
pub proof fn lemma_chunk_buffer_index_range(x: int, y: int, z: int, render_distance: u8)
    ensures
        0 <= spec_chunk_buffer_index(x, y, z, render_distance) < spec_ring_volume(render_distance),
{
    let s = spec_ring_edge(render_distance);
    lemma_mod_bound(x, s);
    lemma_mod_bound(y, s);
    lemma_mod_bound(z, s);
    assert((x % s) + (y % s) * s + (z % s) * s * s < s * s * s) by (nonlinear_arith)
        requires
            0 <= x % s < s,
            0 <= y % s < s,
            0 <= z % s < s,
    ;
    assert(0 <= (x % s) + (y % s) * s + (z % s) * s * s) by (nonlinear_arith)
        requires
            0 <= x % s,
            0 <= y % s,
            0 <= z % s,
            0 < s,
    ;
}

/// Toroidal aliasing: moving a chunk coordinate by any whole number of
/// ring edges along any combination of axes lands in the same slot.
pub proof fn lemma_chunk_buffer_index_wraps(
    x: int,
    y: int,
    z: int,
    kx: int,
    ky: int,
    kz: int,
    render_distance: u8,
)
    ensures
        spec_chunk_buffer_index(
            x + kx * spec_ring_edge(render_distance),
            y + ky * spec_ring_edge(render_distance),
            z + kz * spec_ring_edge(render_distance),
            render_distance,
        ) == spec_chunk_buffer_index(x, y, z, render_distance),
{
    let s = spec_ring_edge(render_distance);
    lemma_mod_multiples_vanish(kx, x, s);
    lemma_mod_multiples_vanish(ky, y, s);
    lemma_mod_multiples_vanish(kz, z, s);
    assert(x + kx * s == s * kx + x) by (nonlinear_arith);
    assert(y + ky * s == s * ky + y) by (nonlinear_arith);
    assert(z + kz * s == s * kz + z) by (nonlinear_arith);
}

/// Maps a chunk coordinate to its slot in the fixed GPU buffer pool.
pub fn chunk_buffer_index(chunk_position: IVec3, render_distance: u8) -> (r: usize)
    ensures
        r == spec_chunk_buffer_index(
            chunk_position.x as int,
            chunk_position.y as int,
            chunk_position.z as int,
            render_distance,
        ),
        r < spec_ring_volume(render_distance),
{
    let s: i32 = 2 * (render_distance as i32) + 1;
    proof {
        lemma_mod_bound(chunk_position.x as int, s as int);
        lemma_mod_bound(chunk_position.y as int, s as int);
        lemma_mod_bound(chunk_position.z as int, s as int);
    }
    let mx: i32 = chunk_position.x.checked_rem_euclid(s).unwrap();
    let my: i32 = chunk_position.y.checked_rem_euclid(s).unwrap();
    let mz: i32 = chunk_position.z.checked_rem_euclid(s).unwrap();
    proof {
        assert({
            &&& 0 <= my * s <= 510 * 511
            &&& 0 <= mz * s <= 510 * 511
            &&& 0 <= mz * s * s <= 510 * 511 * 511
            &&& mx + my * s + mz * s * s < s * s * s
            &&& s * s * s <= 511 * 511 * 511
        }) by (nonlinear_arith)
            requires
                0 <= mx < s,
                0 <= my < s,
                0 <= mz < s,
                0 < s <= 511,
        ;
        lemma_chunk_buffer_index_range(
            chunk_position.x as int,
            chunk_position.y as int,
            chunk_position.z as int,
            render_distance,
        );
    }
    (mx + my * s + mz * s * s) as usize
}

/// The block-in-chunk offset always indexes within one chunk's volume.
pub proof fn lemma_block_in_chunk_index_range(x: int, y: int, z: int)
    ensures
        0 <= spec_block_in_chunk_index(x, y, z) < CHUNK_VOLUME,
{
    let cs = CHUNK_SIZE as int;
    lemma_mod_bound(x, cs);
    lemma_mod_bound(y, cs);
    lemma_mod_bound(z, cs);
}

/// On block positions inside one chunk (each axis in `[0, CHUNK_SIZE)`),
/// the offset map is injective: distinct positions get distinct offsets.
pub proof fn lemma_block_in_chunk_index_injective(x1: int, y1: int, z1: int, x2: int, y2: int, z2: int)
    requires
        0 <= x1 < CHUNK_SIZE,
        0 <= y1 < CHUNK_SIZE,
        0 <= z1 < CHUNK_SIZE,
        0 <= x2 < CHUNK_SIZE,
        0 <= y2 < CHUNK_SIZE,
        0 <= z2 < CHUNK_SIZE,
        spec_block_in_chunk_index(x1, y1, z1) == spec_block_in_chunk_index(x2, y2, z2),
    ensures
        x1 == x2 && y1 == y2 && z1 == z2,
{
}

/// Every offset in `[0, CHUNK_VOLUME)` is hit by some in-chunk position:
/// together with injectivity, the offset map is a bijection between the
/// `CHUNK_SIZE^3` in-chunk positions and `[0, CHUNK_VOLUME)`.
pub proof fn lemma_block_in_chunk_index_surjective(n: int)
    requires
        0 <= n < CHUNK_VOLUME,
    ensures
        ({
            let cs = CHUNK_SIZE as int;
            let x = n % cs;
            let y = (n / cs) % cs;
            let z = n / (cs * cs);
            &&& 0 <= x < CHUNK_SIZE
            &&& 0 <= y < CHUNK_SIZE
            &&& 0 <= z < CHUNK_SIZE
            &&& spec_block_in_chunk_index(x, y, z) == n
        }),
{
}

/// Computes the linear offset of a world block position inside its
/// owning chunk's data array.
pub fn block_in_chunk_index(block_position: IVec3) -> (r: usize)
    ensures
        r == spec_block_in_chunk_index(
            block_position.x as int,
            block_position.y as int,
            block_position.z as int,
        ),
        r < CHUNK_VOLUME,
{
    let cs: i32 = CHUNK_SIZE as i32;
    proof {
        lemma_mod_bound(block_position.x as int, cs as int);
        lemma_mod_bound(block_position.y as int, cs as int);
        lemma_mod_bound(block_position.z as int, cs as int);
    }
    let mx: i32 = block_position.x.checked_rem_euclid(cs).unwrap();
    let my: i32 = block_position.y.checked_rem_euclid(cs).unwrap();
    let mz: i32 = block_position.z.checked_rem_euclid(cs).unwrap();
    (mx + my * cs + mz * cs * cs) as usize
}

} // verus!
