//! Dense in-memory chunk representation and its linearisation.
//!
//! A chunk is a cube of `CHUNK_SIZE^3` blocks indexed by `[x][y][z]`.
//! The GPU consumes the same data as one flat array of 16-bit codes in
//! x-fastest order (x, then y, then z); that ordering is the invariant
//! the codec and the upload offsets rely on.

use vstd::prelude::*;

pub mod block;

verus! {

use crate::CHUNK_SIZE;
use crate::CHUNK_VOLUME;
use crate::chunk::block::{Block, spec_as_u16, spec_from_u16};

/// A cube of blocks, indexed `data[x][y][z]` with every axis in
/// `[0, CHUNK_SIZE)`.
pub struct Chunk {
    data: Vec<Vec<Vec<Block>>>,
}

/// The flat x-fastest index of in-chunk position `(x, y, z)`.
pub open spec fn spec_flat_index(x: int, y: int, z: int) -> int {
    x + y * (CHUNK_SIZE as int) + z * (CHUNK_SIZE as int) * (CHUNK_SIZE as int)
}

impl Chunk {
    /// The cube has exactly `CHUNK_SIZE` entries along every axis.
    pub closed spec fn wf(&self) -> bool {
        &&& self.data@.len() == CHUNK_SIZE
        &&& forall|x: int| 0 <= x < CHUNK_SIZE ==> (#[trigger] self.data@[x])@.len() == CHUNK_SIZE
        &&& forall|x: int, y: int|
            0 <= x < CHUNK_SIZE && 0 <= y < CHUNK_SIZE ==> (#[trigger] self.data@[x]@[y])@.len()
                == CHUNK_SIZE
    }

    /// The block stored at in-chunk position `(x, y, z)`.
    pub closed spec fn spec_block_at(&self, x: int, y: int, z: int) -> Block {
        self.data@[x]@[y]@[z]
    }

    /// The flat x-fastest array of 16-bit codes this chunk linearises to.
    pub closed spec fn spec_raw_data(&self) -> Seq<u16> {
        Seq::new(
            CHUNK_VOLUME as nat,
            |i: int|
                spec_as_u16(
                    self.spec_block_at(
                        i % (CHUNK_SIZE as int),
                        (i / (CHUNK_SIZE as int)) % (CHUNK_SIZE as int),
                        i / ((CHUNK_SIZE as int) * (CHUNK_SIZE as int)),
                    ),
                ),
        )
    }

    /// Linearises the cube into the flat array of 16-bit block codes, in
    /// x-fastest order.
    pub fn to_raw_data(&self) -> (r: Vec<u16>)
        requires
            self.wf(),
        ensures
            r@ == self.spec_raw_data(),
    {
        let n: usize = CHUNK_VOLUME as usize;
        let mut r: Vec<u16> = Vec::new();
        let mut i: usize = 0;
        while i < n
            invariant
                self.wf(),
                0 <= i <= n,
                n == CHUNK_VOLUME,
                r@.len() == i,
                forall|j: int| 0 <= j < i ==> r@[j] == self.spec_raw_data()[j],
            decreases n - i,
        {
            let x: usize = i % (CHUNK_SIZE as usize);
            let y: usize = (i / (CHUNK_SIZE as usize)) % (CHUNK_SIZE as usize);
            let z: usize = i / ((CHUNK_SIZE as usize) * (CHUNK_SIZE as usize));
            r.push(self.data[x][y][z].as_u16());
            i = i + 1;
        }
        proof {
            assert(r@ =~= self.spec_raw_data());
        }
        r
    }

    /// Rebuilds a cube from a flat x-fastest array of 16-bit block codes.
    /// Only the first `CHUNK_VOLUME` codes are read.
    pub fn from_raw_data(guard: &[u16]) -> (r: Chunk)
        requires
            guard@.len() >= CHUNK_VOLUME,
        ensures
            r.wf(),
            forall|x: int, y: int, z: int|
                0 <= x < CHUNK_SIZE && 0 <= y < CHUNK_SIZE && 0 <= z < CHUNK_SIZE
                    ==> #[trigger] r.spec_block_at(x, y, z) == spec_from_u16(
                    guard@[spec_flat_index(x, y, z)],
                ),
    {
        let mut data: Vec<Vec<Vec<Block>>> = Vec::new();
        let mut x: usize = 0;
        while x < CHUNK_SIZE as usize
            invariant
                0 <= x <= CHUNK_SIZE,
                guard@.len() >= CHUNK_VOLUME,
                data@.len() == x,
                forall|a: int| 0 <= a < x ==> (#[trigger] data@[a])@.len() == CHUNK_SIZE,
                forall|a: int, b: int|
                    0 <= a < x && 0 <= b < CHUNK_SIZE ==> (#[trigger] data@[a]@[b])@.len()
                        == CHUNK_SIZE,
                forall|a: int, b: int, c: int|
                    0 <= a < x && 0 <= b < CHUNK_SIZE && 0 <= c < CHUNK_SIZE
                        ==> #[trigger] data@[a]@[b]@[c] == spec_from_u16(
                        guard@[spec_flat_index(a, b, c)],
                    ),
            decreases CHUNK_SIZE - x,
        {
            let mut plane: Vec<Vec<Block>> = Vec::new();
            let mut y: usize = 0;
            while y < CHUNK_SIZE as usize
                invariant
                    0 <= y <= CHUNK_SIZE,
                    0 <= x < CHUNK_SIZE,
                    guard@.len() >= CHUNK_VOLUME,
                    plane@.len() == y,
                    forall|b: int| 0 <= b < y ==> (#[trigger] plane@[b])@.len() == CHUNK_SIZE,
                    forall|b: int, c: int|
                        0 <= b < y && 0 <= c < CHUNK_SIZE ==> #[trigger] plane@[b]@[c]
                            == spec_from_u16(guard@[spec_flat_index(x as int, b, c)]),
                decreases CHUNK_SIZE - y,
            {
                let mut row: Vec<Block> = Vec::new();
                let mut z: usize = 0;
                while z < CHUNK_SIZE as usize
                    invariant
                        0 <= z <= CHUNK_SIZE,
                        0 <= x < CHUNK_SIZE,
                        0 <= y < CHUNK_SIZE,
                        guard@.len() >= CHUNK_VOLUME,
                        row@.len() == z,
                        forall|c: int|
                            0 <= c < z ==> #[trigger] row@[c] == spec_from_u16(
                                guard@[spec_flat_index(x as int, y as int, c)],
                            ),
                    decreases CHUNK_SIZE - z,
                {
                    let idx: usize = x + y * (CHUNK_SIZE as usize) + z * (CHUNK_SIZE as usize)
                        * (CHUNK_SIZE as usize);
                    row.push(Block::from_u16(guard[idx]));
                    z = z + 1;
                }
                plane.push(row);
                y = y + 1;
            }
            data.push(plane);
            x = x + 1;
        }
        Chunk { data }
    }
}

/// The linearisation is the exact x-fastest encoding: the flat array
/// holds one code per block of the cube, and the code of position
/// `(x, y, z)` stands at that position's flat index.
pub proof fn lemma_chunk_raw_data_at(c: Chunk, x: int, y: int, z: int)
    requires
        c.wf(),
        0 <= x < CHUNK_SIZE,
        0 <= y < CHUNK_SIZE,
        0 <= z < CHUNK_SIZE,
    ensures
        c.spec_raw_data().len() == CHUNK_VOLUME,
        c.spec_raw_data()[spec_flat_index(x, y, z)] == spec_as_u16(c.spec_block_at(x, y, z)),
{
    let i = spec_flat_index(x, y, z);
    assert(0 <= i < CHUNK_VOLUME);
    assert(i % (CHUNK_SIZE as int) == x);
    assert((i / (CHUNK_SIZE as int)) % (CHUNK_SIZE as int) == y);
    assert(i / ((CHUNK_SIZE as int) * (CHUNK_SIZE as int)) == z);
}

/// Linearising a chunk and rebuilding from the flat array restores every
/// block: the x-fastest ordering used by `to_raw_data` is exactly the one
/// `from_raw_data` reads back.
pub proof fn lemma_chunk_raw_round_trip(c: Chunk, x: int, y: int, z: int)
    requires
        c.wf(),
        0 <= x < CHUNK_SIZE,
        0 <= y < CHUNK_SIZE,
        0 <= z < CHUNK_SIZE,
    ensures
        spec_from_u16(c.spec_raw_data()[spec_flat_index(x, y, z)]) == c.spec_block_at(x, y, z),
{
    lemma_chunk_raw_data_at(c, x, y, z);
    crate::chunk::block::lemma_block_code_round_trip(c.spec_block_at(x, y, z));
}

} // verus!
