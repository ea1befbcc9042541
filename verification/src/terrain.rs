//! The CPU-side terrain store and the persistence format.
//!
//! The store is the authoritative cache of generated chunk content: a
//! map from chunk coordinate to one chunk's worth of 16-bit block codes.
//! Entries are created lazily, at most once per coordinate, and never
//! evicted. Persisted world state is a flat stream of fixed-width
//! records — 12 bytes of little-endian chunk coordinate followed by the
//! chunk's codes in big-endian, x-fastest order — with no header and no
//! count; end of input terminates the stream.

use vstd::prelude::*;

verus! {

use crate::CHUNK_VOLUME;
use crate::block::{Block, spec_as_u16};
use crate::indexing::{
    block_in_chunk_index,
    chunk_buffer_index,
    spec_block_in_chunk_index,
    spec_chunk_buffer_index,
    spec_ring_volume,
};
use crate::load_store::Serializeable;
use crate::vec3::{
    IVec3,
    VEC3_BYTES,
    chunk_of_block,
    lemma_vec3_decode_encode,
    lemma_vec3_encode_decode,
    lemma_vec3_serialize_injective,
    spec_chunk_of_block,
    spec_vec3_from_bytes,
};
use vstd::slice::slice_subrange;

/// Byte width of one encoded chunk content block.
pub const CHUNK_DATA_BYTES: usize = 2 * 32 * 32 * 32;

/// Byte width of one persisted record: a chunk coordinate followed by
/// the chunk's codes.
pub const RECORD_BYTES: usize = 12 + 2 * 32 * 32 * 32;

/// Ways an operation on the terrain store can fail.
#[derive(Clone, Copy, Debug, PartialEq, Eq, Structural)]
pub enum ErrorKind {
    /// A block edit addressed a chunk that is not in the store.
    ChunkNotLoaded,
    /// Persisted bytes do not split into whole records.
    CodecError,
}

/// The big-endian byte stream a sequence of 16-bit block codes encodes
/// to: two bytes per code, high byte first.
pub open spec fn spec_serialize_codes(s: Seq<u16>) -> Seq<u8> {
    Seq::new(
        (s.len() * 2) as nat,
        |i: int|
            if i % 2 == 0 {
                (s[i / 2] >> 8) as u8
            } else {
                (s[i / 2] & 0xff) as u8
            },
    )
}

/// The 16-bit block codes a big-endian byte stream decodes to.
pub open spec fn spec_codes_from_bytes(b: Seq<u8>) -> Seq<u16> {
    Seq::new((b.len() / 2) as nat, |k: int| ((b[2 * k] as u16) << 8) | (b[2 * k + 1] as u16))
}

/// Decoding a code stream's bytes restores the codes.
pub proof fn lemma_codes_decode_encode(s: Seq<u16>)
    ensures
        spec_codes_from_bytes(spec_serialize_codes(s)) == s,
{
    let b = spec_serialize_codes(s);
    assert forall|k: int| 0 <= k < s.len() implies spec_codes_from_bytes(b)[k] == s[k] by {
        assert((2 * k) % 2 == 0 && (2 * k + 1) % 2 == 1);
        assert((2 * k) / 2 == k && (2 * k + 1) / 2 == k);
        let v = s[k];
        assert((((v >> 8) as u8 as u16) << 8) | ((v & 0xff) as u8 as u16) == v) by (bit_vector);
    }
    assert(spec_codes_from_bytes(b) =~= s);
}

/// Encoding decoded codes restores the bytes, for streams of whole
/// two-byte pairs.
pub proof fn lemma_codes_encode_decode(b: Seq<u8>)
    requires
        b.len() % 2 == 0,
    ensures
        spec_serialize_codes(spec_codes_from_bytes(b)) == b,
{
    let s = spec_codes_from_bytes(b);
    assert forall|i: int| 0 <= i < b.len() implies spec_serialize_codes(s)[i] == b[i] by {
        let k = i / 2;
        let b0 = b[2 * k];
        let b1 = b[2 * k + 1];
        assert(((((b0 as u16) << 8) | (b1 as u16)) >> 8) as u8 == b0) by (bit_vector);
        assert(((((b0 as u16) << 8) | (b1 as u16)) & 0xff) as u8 == b1) by (bit_vector);
        if i % 2 == 0 {
            assert(2 * k == i);
        } else {
            assert(2 * k + 1 == i);
        }
    }
    assert(spec_serialize_codes(s) =~= b);
}

/// One chunk's worth of block codes, in x-fastest linear order.
pub struct ChunkData {
    codes: Vec<u16>,
}

impl View for ChunkData {
    type V = Seq<u16>;

    closed spec fn view(&self) -> Seq<u16> {
        self.codes@
    }
}

impl ChunkData {
    /// Wraps a full chunk's worth of codes.
    pub fn from_codes(codes: Vec<u16>) -> (r: ChunkData)
        requires
            codes@.len() == CHUNK_VOLUME,
        ensures
            r@ == codes@,
            r.wf(),
    {
        ChunkData { codes }
    }

    /// The code stored at one linear in-chunk offset.
    pub fn read_code(&self, i: usize) -> (r: u16)
        requires
            i < CHUNK_VOLUME,
            self.wf(),
        ensures
            r == self@[i as int],
    {
        self.codes[i]
    }

    /// Overwrites the code at one linear in-chunk offset.
    pub fn set_code(&mut self, i: usize, v: u16)
        requires
            i < CHUNK_VOLUME,
            old(self).wf(),
        ensures
            final(self)@ == old(self)@.update(i as int, v),
            final(self).wf(),
    {
        self.codes.set(i, v);
    }

    /// Borrows the full code array, for bulk consumers such as a slot
    /// upload.
    pub fn codes(&self) -> (r: &Vec<u16>)
        ensures
            r@ == self@,
    {
        &self.codes
    }
}

impl Serializeable for ChunkData {
    /// Exactly one chunk volume of codes.
    open spec fn wf(&self) -> bool {
        self@.len() == CHUNK_VOLUME
    }

    open spec fn spec_len() -> int {
        CHUNK_DATA_BYTES as int
    }

    /// Each code as two big-endian bytes, in x-fastest code order.
    open spec fn spec_serialize(&self) -> Seq<u8> {
        spec_serialize_codes(self@)
    }

    proof fn lemma_serialized_len(&self) {
    }

    fn serialize(&self) -> (r: Vec<u8>) {
        let n: usize = CHUNK_VOLUME as usize;
        let mut r: Vec<u8> = Vec::new();
        let mut k: usize = 0;
        while k < n
            invariant
                self.wf(),
                n == CHUNK_VOLUME,
                0 <= k <= n,
                r@.len() == 2 * k,
                forall|i: int| 0 <= i < 2 * k ==> r@[i] == self.spec_serialize()[i],
            decreases n - k,
        {
            let v: u16 = self.codes[k];
            proof {
                assert(v >> 8 < 256 && (v & 0xff) < 256) by (bit_vector);
                assert((2 * k as int) % 2 == 0 && (2 * k as int + 1) % 2 == 1);
                assert((2 * k as int) / 2 == k as int && (2 * k as int + 1) / 2 == k as int);
            }
            r.push((v >> 8) as u8);
            r.push((v & 0xff) as u8);
            k = k + 1;
        }
        proof {
            assert(r@ =~= self.spec_serialize());
        }
        r
    }

    fn deserialize(data: &[u8]) -> (r: Self) {
        let n: usize = CHUNK_VOLUME as usize;
        let mut codes: Vec<u16> = Vec::new();
        let mut k: usize = 0;
        while k < n
            invariant
                data@.len() == CHUNK_DATA_BYTES,
                n == CHUNK_VOLUME,
                0 <= k <= n,
                codes@.len() == k,
                forall|j: int| 0 <= j < k ==> codes@[j] == spec_codes_from_bytes(data@)[j],
            decreases n - k,
        {
            let b0: u8 = data[2 * k];
            let b1: u8 = data[2 * k + 1];
            codes.push(((b0 as u16) << 8) | (b1 as u16));
            k = k + 1;
        }
        let r = ChunkData { codes };
        proof {
            assert(r@ =~= spec_codes_from_bytes(data@));
            lemma_codes_encode_decode(data@);
        }
        r
    }
}

/// The chunk content encoding is injective at the content level: equal
/// encoded bytes mean equal code arrays.
pub proof fn lemma_chunk_data_serialize_injective(a: &ChunkData, b: &ChunkData)
    requires
        a.wf(),
        b.wf(),
        a.spec_serialize() == b.spec_serialize(),
    ensures
        a@ == b@,
{
    lemma_codes_decode_encode(a@);
    lemma_codes_decode_encode(b@);
}

/// Index of the last store entry holding the given chunk coordinate, or
/// `-1` when no entry does.
pub open spec fn spec_find(s: Seq<(IVec3, ChunkData)>, c: IVec3) -> int
    decreases s.len(),
{
    if s.len() == 0 {
        -1
    } else if s.last().0 == c {
        s.len() - 1
    } else {
        spec_find(s.drop_last(), c)
    }
}

/// Basic shape of `spec_find`: its result is a valid index bearing the
/// searched key, or `-1` exactly when no entry bears it.
proof fn lemma_find_props(s: Seq<(IVec3, ChunkData)>, c: IVec3)
    ensures
        -1 <= spec_find(s, c) < s.len(),
        spec_find(s, c) >= 0 ==> s[spec_find(s, c)].0 == c,
        spec_find(s, c) == -1 ==> forall|i: int| 0 <= i < s.len() ==> (#[trigger] s[i]).0 != c,
    decreases s.len(),
{
    if s.len() > 0 && s.last().0 != c {
        lemma_find_props(s.drop_last(), c);
        if spec_find(s, c) == -1 {
            assert forall|i: int| 0 <= i < s.len() implies (#[trigger] s[i]).0 != c by {
                if i < s.len() - 1 {
                    assert(s.drop_last()[i] == s[i]);
                }
            }
        }
    }
}

/// Appending an entry moves the found index to it for its own key and
/// changes nothing for other keys.
proof fn lemma_find_push(s: Seq<(IVec3, ChunkData)>, v: (IVec3, ChunkData), c: IVec3)
    ensures
        spec_find(s.push(v), c) == if v.0 == c {
            s.len() as int
        } else {
            spec_find(s, c)
        },
{
    assert(s.push(v).drop_last() =~= s);
}

/// Replacing an entry by one with the same key leaves every found index
/// unchanged.
proof fn lemma_find_update(s: Seq<(IVec3, ChunkData)>, i: int, v: (IVec3, ChunkData), c: IVec3)
    requires
        0 <= i < s.len(),
        s[i].0 == v.0,
    ensures
        spec_find(s.update(i, v), c) == spec_find(s, c),
    decreases s.len(),
{
    if i == s.len() - 1 {
        assert(s.update(i, v).drop_last() =~= s.drop_last());
    } else {
        assert(s.update(i, v).drop_last() =~= s.drop_last().update(i, v));
        assert(s.update(i, v).last() == s.last());
        if s.last().0 != c {
            lemma_find_update(s.drop_last(), i, v, c);
        }
    }
}

/// The coordinate-to-content map a sequence of store entries denotes;
/// among entries sharing a coordinate the last one wins.
pub open spec fn spec_map_of(s: Seq<(IVec3, ChunkData)>) -> Map<IVec3, Seq<u16>> {
    Map::new(|c: IVec3| spec_find(s, c) >= 0, |c: IVec3| s[spec_find(s, c)].1@)
}

/// What a successful block placement tells the device side: which chunk
/// changed, which slot buffer holds it, where inside the buffer the
/// single changed code sits, and the new code itself.
#[derive(Clone, Copy, Debug, PartialEq, Eq, Structural)]
pub struct BlockPlacement {
    /// The chunk coordinate owning the edited block.
    pub chunk_position: IVec3,
    /// The slot of that chunk in the GPU buffer pool.
    pub chunk_buffer: usize,
    /// The linear in-chunk offset of the edited block.
    pub block_index: usize,
    /// The byte offset of the edited 16-bit code inside the slot buffer.
    pub byte_offset: usize,
    /// The code now stored at that offset.
    pub code: u16,
}

/// The CPU-visible map from chunk coordinate to chunk content: the
/// authoritative cache of everything generated so far.
pub struct Terrain {
    chunks: Vec<(IVec3, ChunkData)>,
}

impl View for Terrain {
    type V = Map<IVec3, Seq<u16>>;

    closed spec fn view(&self) -> Map<IVec3, Seq<u16>> {
        spec_map_of(self.chunks@)
    }
}

impl Terrain {
    /// Entries carry pairwise distinct coordinates and full chunk
    /// contents.
    pub closed spec fn wf(&self) -> bool {
        &&& forall|i: int, j: int|
            0 <= i < j < self.chunks@.len() ==> (#[trigger] self.chunks@[i]).0 != (
            #[trigger] self.chunks@[j]).0
        &&& forall|i: int|
            0 <= i < self.chunks@.len() ==> (#[trigger] self.chunks@[i]).1.wf()
    }

    /// An empty store: no chunk has been generated or loaded yet.
    pub fn empty() -> (r: Terrain)
        ensures
            r.wf(),
            r@ == Map::<IVec3, Seq<u16>>::empty(),
    {
        let r = Terrain { chunks: Vec::new() };
        proof {
            assert(r@ =~= Map::<IVec3, Seq<u16>>::empty());
        }
        r
    }

    /// Index of the store entry for a coordinate, if one exists.
    fn find_chunk(&self, c: IVec3) -> (r: Option<usize>)
        ensures
            match r {
                Some(i) => spec_find(self.chunks@, c) == i,
                None => spec_find(self.chunks@, c) == -1,
            },
    {
        let s = Ghost(self.chunks@);
        let mut i: usize = self.chunks.len();
        proof {
            assert(s@.take(i as int) =~= s@);
        }
        while i > 0
            invariant
                0 <= i <= s@.len(),
                s@ == self.chunks@,
                spec_find(s@, c) == spec_find(s@.take(i as int), c),
            decreases i,
        {
            if self.chunks[i - 1].0 == c {
                proof {
                    assert(s@.take(i as int).last() == s@[i - 1]);
                }
                return Some(i - 1);
            }
            proof {
                assert(s@.take(i as int).drop_last() =~= s@.take(i as int - 1));
            }
            i = i - 1;
        }
        None
    }

    /// Whether a chunk coordinate has content in the store.
    pub fn contains_chunk(&self, c: IVec3) -> (r: bool)
        ensures
            r == self@.dom().contains(c),
    {
        proof {
            lemma_find_props(self.chunks@, c);
        }
        match self.find_chunk(c) {
            Some(_) => true,
            None => false,
        }
    }

    /// Borrows the content cached for a chunk coordinate, if any.
    pub fn chunk_content(&self, c: IVec3) -> (r: Option<&ChunkData>)
        requires
            self.wf(),
        ensures
            match r {
                Some(d) => self@.dom().contains(c) && d@ == self@[c] && d.wf(),
                None => !self@.dom().contains(c),
            },
    {
        proof {
            lemma_find_props(self.chunks@, c);
        }
        match self.find_chunk(c) {
            Some(i) => Some(&self.chunks[i].1),
            None => None,
        }
    }

    /// Inserts content for a coordinate, replacing any previous content.
    fn insert_chunk(&mut self, c: IVec3, d: ChunkData)
        requires
            old(self).wf(),
            d.wf(),
        ensures
            final(self).wf(),
            final(self)@ == old(self)@.insert(c, d@),
    {
        let ghost s = self.chunks@;
        let ghost dv = d@;
        match self.find_chunk(c) {
            Some(i) => {
                proof {
                    lemma_find_props(s, c);
                }
                self.chunks.set(i, (c, d));
                proof {
                    let s2 = self.chunks@;
                    assert forall|k: IVec3| true implies spec_find(s2, k) == spec_find(s, k) by {
                        lemma_find_update(s, i as int, (c, d), k);
                    }
                    assert forall|k: IVec3| spec_find(s2, k) >= 0 && k != c implies s2[spec_find(
                        s2,
                        k,
                    )].1 == s[spec_find(s, k)].1 by {
                        lemma_find_props(s, k);
                    }
                    assert(self@ =~= old(self)@.insert(c, dv));
                }
            },
            None => {
                proof {
                    lemma_find_props(s, c);
                }
                self.chunks.push((c, d));
                proof {
                    let s2 = self.chunks@;
                    assert forall|k: IVec3| true implies spec_find(s2, k) == (if k == c {
                        s.len() as int
                    } else {
                        spec_find(s, k)
                    }) by {
                        lemma_find_push(s, (c, d), k);
                    }
                    assert forall|k: IVec3| true implies -1 <= #[trigger] spec_find(s, k)
                        < s.len() && (spec_find(s, k) >= 0 ==> s[spec_find(s, k)].0 == k) by {
                        lemma_find_props(s, k);
                    }
                    assert(self@ =~= old(self)@.insert(c, dv));
                }
            },
        }
    }

    /// Ensures a chunk is resident and resolves its slot in the GPU
    /// buffer pool. Content is generated at most once per coordinate:
    /// when the chunk is already cached the store keeps what it has and
    /// `generated` is ignored; only a chunk seen for the first time is
    /// stored from `generated`. The returned slot is where the chunk's
    /// content belongs under toroidal indexing.
    pub fn upload_chunk(&mut self, chunk_position: IVec3, generated: Option<ChunkData>, render_distance: u8) -> (r: usize)
        requires
            old(self).wf(),
            old(self)@.dom().contains(chunk_position) || (generated matches Some(d) && d.wf()),
        ensures
            final(self).wf(),
            final(self)@.dom().contains(chunk_position),
            old(self)@.dom().contains(chunk_position) ==> final(self)@ == old(self)@,
            !old(self)@.dom().contains(chunk_position) ==> (generated matches Some(d)
                && final(self)@ == old(self)@.insert(chunk_position, d@)),
            r == spec_chunk_buffer_index(
                chunk_position.x as int,
                chunk_position.y as int,
                chunk_position.z as int,
                render_distance,
            ),
            r < spec_ring_volume(render_distance),
    {
        if !self.contains_chunk(chunk_position) {
            let d = generated.unwrap();
            self.insert_chunk(chunk_position, d);
        }
        chunk_buffer_index(chunk_position, render_distance)
    }

    /// Overwrites one block of an already-resident chunk. The owning
    /// chunk is found by flooring division of the block position; if it
    /// is not in the store the edit fails with `ChunkNotLoaded` and the
    /// store is untouched. On success exactly one code of that chunk's
    /// content changes — the one at the block's linear in-chunk offset —
    /// and the returned placement carries the slot, offset and code the
    /// device-side partial copy needs.
    pub fn place_block(&mut self, block_position: IVec3, block_type: Block, render_distance: u8) -> (r: Result<
        BlockPlacement,
        ErrorKind,
    >)
        requires
            old(self).wf(),
        ensures
            final(self).wf(),
            match r {
                Ok(p) => {
                    let c = spec_chunk_of_block(block_position);
                    &&& old(self)@.dom().contains(c)
                    &&& p.chunk_position == c
                    &&& p.chunk_buffer == spec_chunk_buffer_index(
                        c.x as int,
                        c.y as int,
                        c.z as int,
                        render_distance,
                    )
                    &&& p.block_index == spec_block_in_chunk_index(
                        block_position.x as int,
                        block_position.y as int,
                        block_position.z as int,
                    )
                    &&& p.byte_offset == 2 * p.block_index
                    &&& p.code == spec_as_u16(block_type)
                    &&& final(self)@ == old(self)@.insert(
                        c,
                        old(self)@[c].update(p.block_index as int, p.code),
                    )
                    &&& final(self)@[c][p.block_index as int] == p.code
                },
                Err(e) => {
                    &&& e == ErrorKind::ChunkNotLoaded
                    &&& !old(self)@.dom().contains(spec_chunk_of_block(block_position))
                    &&& final(self)@ == old(self)@
                },
            },
    {
        let block_chunk = chunk_of_block(block_position);
        proof {
            lemma_find_props(self.chunks@, block_chunk);
        }
        let found = self.find_chunk(block_chunk);
        match found {
            None => Err(ErrorKind::ChunkNotLoaded),
            Some(i) => {
                let ghost s = self.chunks@;
                let idx = block_in_chunk_index(block_position);
                let code = block_type.as_u16();
                self.chunks[i].1.set_code(idx, code);
                let index = chunk_buffer_index(block_chunk, render_distance);
                proof {
                    let s2 = self.chunks@;
                    assert(s2 =~= s.update(i as int, s2[i as int]));
                    assert forall|k: IVec3| true implies spec_find(s2, k) == spec_find(s, k) by {
                        lemma_find_update(s, i as int, s2[i as int], k);
                    }
                    assert forall|k: IVec3| true implies -1 <= #[trigger] spec_find(s, k)
                        < s.len() && (spec_find(s, k) >= 0 ==> s[spec_find(s, k)].0 == k) by {
                        lemma_find_props(s, k);
                    }
                    assert(self@ =~= old(self)@.insert(
                        block_chunk,
                        old(self)@[block_chunk].update(idx as int, code),
                    ));
                }
                Ok(
                    BlockPlacement {
                        chunk_position: block_chunk,
                        chunk_buffer: index,
                        block_index: idx,
                        byte_offset: 2 * idx,
                        code,
                    },
                )
            },
        }
    }

    /// The persisted byte stream of this store: its entries as
    /// fixed-width records, in store order.
    pub closed spec fn spec_save(&self) -> Seq<u8> {
        spec_save_records(self.chunks@)
    }

    /// Serialises the whole store as a flat stream of fixed-width
    /// records: 12 coordinate bytes, then the chunk's codes. No header,
    /// no record count.
    pub fn save(&self) -> (r: Vec<u8>)
        requires
            self.wf(),
        ensures
            r@ == self.spec_save(),
            r@.len() as int % RECORD_BYTES as int == 0,
            spec_load_map(r@) == self@,
    {
        let ghost s = self.chunks@;
        let n: usize = self.chunks.len();
        let mut r: Vec<u8> = Vec::new();
        let mut i: usize = 0;
        proof {
            assert(s.take(0) =~= Seq::<(IVec3, ChunkData)>::empty());
        }
        while i < n
            invariant
                self.wf(),
                s == self.chunks@,
                n == s.len(),
                0 <= i <= n,
                r@ == spec_save_records(s.take(i as int)),
                r@.len() == i * RECORD_BYTES,
            decreases n - i,
        {
            proof {
                assert(s[i as int].1.wf());
                s[i as int].0.lemma_serialized_len();
                s[i as int].1.lemma_serialized_len();
                assert((i + 1) * RECORD_BYTES == i * RECORD_BYTES + RECORD_BYTES) by (nonlinear_arith);
            }
            let mut pos_bytes = self.chunks[i].0.serialize();
            let mut content_bytes = self.chunks[i].1.serialize();
            r.append(&mut pos_bytes);
            r.append(&mut content_bytes);
            proof {
                assert(s.take(i + 1 as int).drop_last() =~= s.take(i as int));
                assert(s.take(i + 1 as int).last() == s[i as int]);
            }
            i = i + 1;
        }
        proof {
            assert(s.take(n as int) =~= s);
            lemma_load_of_save(s);
            vstd::arithmetic::div_mod::lemma_mod_multiples_basic(
                n as int,
                RECORD_BYTES as int,
            );
        }
        r
    }

    /// Rebuilds a store from a persisted byte stream. The stream must
    /// split into whole records; anything else is a `CodecError` and
    /// nothing is rebuilt. Among records naming the same coordinate the
    /// last one wins, as when they had been inserted in order.
    pub fn load(data: &[u8]) -> (r: Result<Terrain, ErrorKind>)
        ensures
            match r {
                Ok(t) => {
                    &&& data@.len() as int % RECORD_BYTES as int == 0
                    &&& t.wf()
                    &&& t@ == spec_load_map(data@)
                },
                Err(e) => {
                    &&& e == ErrorKind::CodecError
                    &&& data@.len() as int % RECORD_BYTES as int != 0
                },
            },
    {
        let n: usize = data.len();
        if n % RECORD_BYTES != 0 {
            return Err(ErrorKind::CodecError);
        }
        let mut t = Terrain::empty();
        let mut off: usize = 0;
        proof {
            assert(data@.take(0) =~= Seq::<u8>::empty());
            assert(t@ =~= spec_load_map(data@.take(0)));
        }
        while off < n
            invariant
                n == data@.len(),
                n as int % RECORD_BYTES as int == 0,
                off as int % RECORD_BYTES as int == 0,
                0 <= off <= n,
                t.wf(),
                t@ == spec_load_map(data@.take(off as int)),
            decreases n - off,
        {
            proof {
                lemma_multiple_gap(off as int, n as int, RECORD_BYTES as int);
            }
            let pos_bytes = slice_subrange(data, off, off + VEC3_BYTES);
            let content_bytes = slice_subrange(data, off + VEC3_BYTES, off + RECORD_BYTES);
            let pos = IVec3::deserialize(pos_bytes);
            let content = ChunkData::deserialize(content_bytes);
            proof {
                lemma_vec3_encode_decode(pos_bytes@);
                lemma_vec3_serialize_injective(pos, spec_vec3_from_bytes(pos_bytes@));
                lemma_codes_decode_encode(content@);
            }
            t.insert_chunk(pos, content);
            proof {
                let off2 = off as int + RECORD_BYTES as int;
                let b2 = data@.take(off2);
                assert(b2.take(off2 - RECORD_BYTES as int) =~= data@.take(off as int));
                assert(b2.skip(off2 - RECORD_BYTES as int).take(VEC3_BYTES as int) =~= pos_bytes@);
                assert(b2.skip(off2 - RECORD_BYTES as int).skip(VEC3_BYTES as int)
                    =~= content_bytes@);
                vstd::arithmetic::div_mod::lemma_mod_adds(
                    off as int,
                    RECORD_BYTES as int,
                    RECORD_BYTES as int,
                );
                vstd::arithmetic::div_mod::lemma_mod_self_0(RECORD_BYTES as int);
            }
            off = off + RECORD_BYTES;
        }
        proof {
            assert(data@.take(n as int) =~= data@);
        }
        Ok(t)
    }
}

/// One persisted record: the chunk coordinate, then the chunk's codes.
pub open spec fn spec_record(p: (IVec3, ChunkData)) -> Seq<u8> {
    p.0.spec_serialize() + p.1.spec_serialize()
}

/// The persisted stream of a sequence of store entries, in order.
pub open spec fn spec_save_records(s: Seq<(IVec3, ChunkData)>) -> Seq<u8>
    decreases s.len(),
{
    if s.len() == 0 {
        Seq::empty()
    } else {
        spec_save_records(s.drop_last()) + spec_record(s.last())
    }
}

/// The coordinate-to-content map a persisted stream decodes to, reading
/// whole records and letting a later record override an earlier one
/// with the same coordinate.
pub open spec fn spec_load_map(b: Seq<u8>) -> Map<IVec3, Seq<u16>>
    decreases b.len(),
{
    if b.len() < RECORD_BYTES {
        Map::empty()
    } else {
        let rec = b.skip(b.len() - RECORD_BYTES as int);
        spec_load_map(b.take(b.len() - RECORD_BYTES as int)).insert(
            spec_vec3_from_bytes(rec.take(VEC3_BYTES as int)),
            spec_codes_from_bytes(rec.skip(VEC3_BYTES as int)),
        )
    }
}

/// Two consecutive multiples of a positive number are at least that
/// number apart.
proof fn lemma_multiple_gap(off: int, len: int, r: int)
    requires
        r > 0,
        off % r == 0,
        len % r == 0,
        0 <= off < len,
    ensures
        off + r <= len,
{
    vstd::arithmetic::div_mod::lemma_fundamental_div_mod(off, r);
    vstd::arithmetic::div_mod::lemma_fundamental_div_mod(len, r);
    let q1 = off / r;
    let q2 = len / r;
    assert(q1 < q2) by (nonlinear_arith)
        requires
            r * q1 < r * q2,
            r > 0,
    ;
    assert(r * q1 + r <= r * q2) by (nonlinear_arith)
        requires
            q1 < q2,
            r > 0,
    ;
}

/// Loading a saved stream of entries rebuilds exactly the map those
/// entries denote: persistence round-trips, independently of entry
/// order.
pub proof fn lemma_load_of_save(s: Seq<(IVec3, ChunkData)>)
    requires
        forall|i: int| 0 <= i < s.len() ==> (#[trigger] s[i]).1.wf(),
    ensures
        spec_save_records(s).len() == s.len() * RECORD_BYTES,
        spec_load_map(spec_save_records(s)) == spec_map_of(s),
    decreases s.len(),
{
    if s.len() == 0 {
        assert(spec_load_map(spec_save_records(s)) =~= spec_map_of(s));
    } else {
        let prev = s.drop_last();
        let last = s.last();
        lemma_load_of_save(prev);
        last.0.lemma_serialized_len();
        assert(last.1.wf());
        last.1.lemma_serialized_len();
        let b = spec_save_records(s);
        assert(b == spec_save_records(prev) + spec_record(last));
        assert(b.len() == prev.len() * RECORD_BYTES + RECORD_BYTES);
        let a = s.len() as int;
        assert(a * RECORD_BYTES == (a - 1) * RECORD_BYTES + RECORD_BYTES) by (nonlinear_arith);
        let cut = b.len() - RECORD_BYTES as int;
        assert(b.take(cut) =~= spec_save_records(prev));
        assert(b.skip(cut) =~= spec_record(last));
        assert(b.skip(cut).take(VEC3_BYTES as int) =~= last.0.spec_serialize());
        assert(b.skip(cut).skip(VEC3_BYTES as int) =~= last.1.spec_serialize());
        lemma_vec3_decode_encode(last.0);
        lemma_codes_decode_encode(last.1@);
        assert(spec_load_map(b) == spec_map_of(prev).insert(last.0, last.1@));
        assert forall|k: IVec3| true implies spec_find(s, k) == (if last.0 == k {
            prev.len() as int
        } else {
            spec_find(prev, k)
        }) by {
            assert(s =~= prev.push(last));
            lemma_find_push(prev, last, k);
        }
        assert forall|k: IVec3| true implies -1 <= #[trigger] spec_find(prev, k) < prev.len() && (
        spec_find(prev, k) >= 0 ==> prev[spec_find(prev, k)].0 == k) by {
            lemma_find_props(prev, k);
        }
        assert(spec_load_map(b) =~= spec_map_of(s));
    }
}

/// Saving a well-formed store and loading the bytes back yields the
/// same coordinate-to-content map: the persistence format round-trips,
/// with no dependence on the order the store was written in.
pub proof fn lemma_save_load_round_trip(t: &Terrain)
    requires
        t.wf(),
    ensures
        spec_load_map(t.spec_save()) == t@,
        t.spec_save().len() as int % RECORD_BYTES as int == 0,
{
    lemma_load_of_save(t.chunks@);
    vstd::arithmetic::div_mod::lemma_mod_multiples_basic(
        t.chunks@.len() as int,
        RECORD_BYTES as int,
    );
}

} // verus!
