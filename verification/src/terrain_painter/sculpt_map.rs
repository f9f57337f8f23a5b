//! The sculpt map: per terrain chunk, a grid of height offsets that the
//! sculpting brushes paint on top of the generated terrain. Offsets are `f32`
//! values held as bit patterns (see `crate::float_bits`).
//!
//! Chunks are stored under a 64-bit key packed from their coordinates. On
//! disk a sculpt map is a list of `("x,y", offsets)` pairs.
use vstd::prelude::*;
use std::collections::HashMap;
use crate::grid_key::{key_x, key_y, lemma_pair_key_bijective, pack_pair, pair_key, unpack_pair};
use crate::terrain_painter::chunk_text::{
    chunk_key_text, format_chunk_key, lemma_chunk_key_round_trip, parse_chunk_key,
    parse_chunk_key_text,
};

verus! {

broadcast use vstd::std_specs::hash::group_hash_axioms;

/// The coordinates of a terrain chunk.
#[derive(Clone, Copy, Debug, PartialEq, Eq, Hash, Structural)]
pub struct ChunkCoord {
    pub x: i32,
    pub y: i32,
}

/// The key a chunk is stored under.
pub open spec fn chunk_key(c: ChunkCoord) -> u64 {
    pair_key(c.x, c.y)
}

/// The chunk a key names; every `u64` names exactly one chunk.
pub open spec fn chunk_of_key(k: u64) -> ChunkCoord {
    ChunkCoord { x: key_x(k), y: key_y(k) }
}

/// Every chunk has one key and every key names one chunk.
pub proof fn lemma_chunk_key_bijective(c: ChunkCoord, k: u64)
    ensures
        chunk_of_key(chunk_key(c)) == c,
        chunk_key(chunk_of_key(k)) == k,
{
    lemma_pair_key_bijective(c.x, c.y, k);
}

impl ChunkCoord {
    /// The chunk at `(x, y)`.
    pub fn new(x: i32, y: i32) -> (coord: Self)
        ensures
            coord == (ChunkCoord { x, y }),
    {
        Self { x, y }
    }

    /// The key this chunk is stored under.
    pub fn key(&self) -> (k: u64)
        ensures
            k == chunk_key(*self),
    {
        pack_pair(self.x, self.y)
    }

    /// The chunk stored under `k`.
    pub fn from_key(k: u64) -> (coord: Self)
        ensures
            coord == chunk_of_key(k),
    {
        let (x, y) = unpack_pair(k);
        Self { x, y }
    }
}

/// A grid of `f32` offsets, as bit patterns, row by row.
pub type ChunkOffsets = Vec<Vec<u32>>;

/// A copy of a grid of offsets.
pub fn clone_offsets(offsets: &ChunkOffsets) -> (copy: ChunkOffsets)
    ensures
        copy.deep_view() == offsets.deep_view(),
{
    let mut copy: ChunkOffsets = Vec::new();
    let mut i: usize = 0;
    while i < offsets.len()
        invariant
            i <= offsets.len(),
            copy.len() == i,
            forall|j: int| 0 <= j < i ==> (#[trigger] copy@[j])@ == offsets@[j]@,
        decreases offsets.len() - i,
    {
        let row = offsets[i].clone();
        assert(row@ =~= offsets@[i as int]@);
        copy.push(row);
        i += 1;
    }
    assert(copy.deep_view() =~= offsets.deep_view());
    copy
}

/// The sculpt offsets of every chunk that has been sculpted.
#[derive(Debug)]
pub struct SculptMap {
    pub chunks: HashMap<u64, ChunkOffsets>,
}

/// The chunks of a map from keys to offsets, by coordinates.
pub open spec fn chunks_view(chunks: Map<u64, ChunkOffsets>) -> Map<ChunkCoord, Seq<Seq<u32>>> {
    Map::new(
        |c: ChunkCoord| chunks.contains_key(chunk_key(c)),
        |c: ChunkCoord| chunks[chunk_key(c)].deep_view(),
    )
}

impl View for SculptMap {
    type V = Map<ChunkCoord, Seq<Seq<u32>>>;

    open spec fn view(&self) -> Map<ChunkCoord, Seq<Seq<u32>>> {
        chunks_view(self.chunks@)
    }
}

impl SculptMap {
    /// No chunk sculpted.
    pub fn new() -> (map: Self)
        ensures
            map@ == Map::<ChunkCoord, Seq<Seq<u32>>>::empty(),
    {
        let map = Self { chunks: HashMap::new() };
        assert(map@ =~= Map::<ChunkCoord, Seq<Seq<u32>>>::empty());
        map
    }

    /// The offsets of a chunk, if it has been sculpted.
    pub fn get(&self, coord: ChunkCoord) -> (offsets: Option<&ChunkOffsets>)
        ensures
            match offsets {
                Some(o) => self@.contains_key(coord) && o.deep_view() == self@[coord],
                None => !self@.contains_key(coord),
            },
    {
        self.chunks.get(&coord.key())
    }

    /// Stores the offsets of a chunk.
    pub fn insert(&mut self, coord: ChunkCoord, offsets: ChunkOffsets)
        ensures
            final(self)@ == old(self)@.insert(coord, offsets.deep_view()),
    {
        let key = coord.key();
        self.chunks.insert(key, offsets);
        proof {
            assert forall|c: ChunkCoord| chunk_key(c) == key implies c == coord by {
                lemma_chunk_key_bijective(c, key);
                lemma_chunk_key_bijective(coord, key);
            }
        }
        assert(self@ =~= old(self)@.insert(coord, offsets.deep_view()));
    }

    /// Forgets the offsets of a chunk.
    pub fn remove(&mut self, coord: ChunkCoord)
        ensures
            final(self)@ == old(self)@.remove(coord),
    {
        let key = coord.key();
        self.chunks.remove(&key);
        proof {
            assert forall|c: ChunkCoord| chunk_key(c) == key implies c == coord by {
                lemma_chunk_key_bijective(c, key);
                lemma_chunk_key_bijective(coord, key);
            }
        }
        assert(self@ =~= old(self)@.remove(coord));
    }
}

/// Where a mesh vertex of the world lies in the sculpt map: the chunk that
/// holds it, and its column and row in that chunk's offsets.
#[derive(Clone, Copy, Debug, PartialEq, Eq, Structural)]
pub struct VertexCell {
    pub chunk: ChunkCoord,
    pub index_x: usize,
    pub index_z: usize,
}

/// Finds mesh vertex `(nx, nz)` of the world (the vertex at world position
/// `(nx - 0.5, nz - 0.5)`) in the chunks, which are `span` vertices apart and
/// whose vertices are numbered from `half_shift` vertices left of and above
/// the chunk's centre. Along x the column grows with the world position;
/// along z the row shrinks as the world position grows.
pub fn vertex_cell(nx: i64, nz: i64, span: i64, half_shift: i64) -> (cell: VertexCell)
    requires
        0 < span <= i32::MAX,
        0 <= half_shift <= i32::MAX,
        i64::MIN <= nx + half_shift <= i64::MAX,
        i64::MIN <= nz + half_shift <= i64::MAX,
        i32::MIN <= (nx + half_shift) / (span as int) <= i32::MAX,
        i32::MIN <= (nz + half_shift) / (span as int) <= i32::MAX,
    ensures
        cell.chunk.x == (nx + half_shift) / (span as int),
        cell.index_x == (nx + half_shift) % (span as int),
        cell.chunk.y == (nz + half_shift) / (span as int),
        cell.index_z == (2 * half_shift + 1 - (nz + half_shift) % (span as int)) as usize,
{
    let shifted_x = nx + half_shift;
    let cx: i32 = match shifted_x.checked_div_euclid(span) {
        Some(q) => q as i32,
        None => 0,
    };
    proof {
        let q = (shifted_x as int) / (span as int);
        assert(q * span + (shifted_x as int) % (span as int) == shifted_x && 0 <= (shifted_x as int) % (span as int) < span)
            by (nonlinear_arith)
            requires
                0 < span,
                q == (shifted_x as int) / (span as int),
        ;
        assert(-0x4000_0000_0000_0000 <= q * span <= 0x4000_0000_0000_0000) by (nonlinear_arith)
            requires
                i32::MIN <= q <= i32::MAX,
                0 < span <= i32::MAX,
        ;
    }
    let ix = (shifted_x - cx as i64 * span) as usize;
    let shifted_z = nz + half_shift;
    let cz: i32 = match shifted_z.checked_div_euclid(span) {
        Some(q) => q as i32,
        None => 0,
    };
    proof {
        let q = (shifted_z as int) / (span as int);
        assert(q * span + (shifted_z as int) % (span as int) == shifted_z && 0 <= (shifted_z as int) % (span as int) < span)
            by (nonlinear_arith)
            requires
                0 < span,
                q == (shifted_z as int) / (span as int),
        ;
        assert(-0x4000_0000_0000_0000 <= q * span <= 0x4000_0000_0000_0000) by (nonlinear_arith)
            requires
                i32::MIN <= q <= i32::MAX,
                0 < span <= i32::MAX,
        ;
    }
    let iz = #[verifier::truncate] ((cz as i64 * span + (2 * half_shift + 1) - shifted_z) as usize);
    VertexCell { chunk: ChunkCoord { x: cx, y: cz }, index_x: ix, index_z: iz }
}

/// Whether every row of a grid of offsets is as long as its first.
pub open spec fn rows_even(offsets: Seq<Seq<u32>>) -> bool {
    forall|r: int| 0 <= r < offsets.len() ==> (#[trigger] offsets[r]).len() == offsets[0].len()
}

impl SculptMap {
    /// The sculpt offset at a vertex: none if its chunk has not been sculpted
    /// or the vertex lies outside the chunk's offsets.
    pub fn offset_at(&self, cell: VertexCell) -> (offset: Option<u32>)
        requires
            self@.contains_key(cell.chunk) ==> rows_even(self@[cell.chunk]),
        ensures
            offset == if self@.contains_key(cell.chunk) && cell.index_z < self@[cell.chunk].len()
                && cell.index_x < self@[cell.chunk][0].len() {
                Some(self@[cell.chunk][cell.index_z as int][cell.index_x as int])
            } else {
                None::<u32>
            },
    {
        match self.get(cell.chunk) {
            Some(chunk) => {
                if cell.index_z < chunk.len() && cell.index_x < chunk[0].len() {
                    assert(self@[cell.chunk][cell.index_z as int].len() == self@[cell.chunk][0].len());
                    assert(chunk.deep_view()[cell.index_z as int] == chunk@[cell.index_z as int]@);
                    assert(chunk.deep_view()[0] == chunk@[0]@);
                    Some(chunk[cell.index_z][cell.index_x])
                } else {
                    None
                }
            },
            None => None,
        }
    }
}

/// Taking one more element of a sequence adds that element to the set taken.
pub proof fn lemma_take_to_set_step<A>(s: Seq<A>, k: int)
    requires
        0 <= k < s.len(),
    ensures
        s.take(k + 1).to_set() == s.take(k).to_set().insert(s[k]),
{
    assert forall|d: A| s.take(k + 1).to_set().contains(d) <==> s.take(k).to_set().insert(s[k]).contains(d) by {
        if s.take(k + 1).to_set().contains(d) {
            let j = choose|j: int| 0 <= j < k + 1 && #[trigger] s.take(k + 1)[j] == d;
            if j < k {
                assert(s.take(k)[j] == d);
            }
        }
        if s.take(k).to_set().contains(d) {
            let j = choose|j: int| 0 <= j < k && #[trigger] s.take(k)[j] == d;
            assert(s.take(k + 1)[j] == d);
        }
        if d == s[k] {
            assert(s.take(k + 1)[k] == d);
        }
    }
    assert(s.take(k + 1).to_set() =~= s.take(k).to_set().insert(s[k]));
}

/// `pairs` lists the chunks of `chunks`, in the order of `coords`, each once,
/// as the pair of its key text and its offsets.
pub open spec fn lists_chunks(
    chunks: Map<ChunkCoord, Seq<Seq<u32>>>,
    coords: Seq<ChunkCoord>,
    pairs: Seq<(String, ChunkOffsets)>,
) -> bool {
    &&& coords.len() == pairs.len()
    &&& coords.no_duplicates()
    &&& coords.to_set() == chunks.dom()
    &&& forall|i: int| 0 <= i < pairs.len() ==> {
        &&& (#[trigger] pairs[i]).0@ == chunk_key_text(coords[i].x, coords[i].y)
        &&& pairs[i].1.deep_view() == chunks[coords[i]]
    }
}

/// The chunks that a list of saved pairs describes: pairs are read in order,
/// a pair whose key does not read as two `i32`s is skipped, and a later pair
/// for the same chunk replaces an earlier one.
pub open spec fn pairs_chunks(pairs: Seq<(String, ChunkOffsets)>) -> Map<ChunkCoord, Seq<Seq<u32>>>
    decreases pairs.len(),
{
    if pairs.len() == 0 {
        Map::empty()
    } else {
        let before = pairs_chunks(pairs.drop_last());
        match parse_chunk_key_text(pairs.last().0@) {
            Some((x, y)) => before.insert(ChunkCoord { x, y }, pairs.last().1.deep_view()),
            None => before,
        }
    }
}

proof fn lemma_coords_of_keys(chunks: Map<u64, ChunkOffsets>, keys: Seq<u64>, coords: Seq<ChunkCoord>)
    requires
        keys.to_set() == chunks.dom(),
        keys.no_duplicates(),
        coords.len() == keys.len(),
        forall|i: int| 0 <= i < coords.len() ==> #[trigger] coords[i] == chunk_of_key(keys[i]),
    ensures
        coords.no_duplicates(),
        coords.to_set() == chunks_view(chunks).dom(),
{
    assert forall|i: int, j: int| 0 <= i < coords.len() && 0 <= j < coords.len() && i != j implies coords[i] != coords[j] by {
        lemma_chunk_key_bijective(coords[i], keys[i]);
        lemma_chunk_key_bijective(coords[j], keys[j]);
    }
    assert forall|c: ChunkCoord| coords.to_set().contains(c) <==> chunks_view(chunks).dom().contains(c) by {
        lemma_chunk_key_bijective(c, chunk_key(c));
        if coords.to_set().contains(c) {
            let i = choose|i: int| 0 <= i < coords.len() && coords[i] == c;
            lemma_chunk_key_bijective(c, keys[i]);
            assert(keys.to_set().contains(keys[i]));
        }
        if chunks_view(chunks).dom().contains(c) {
            assert(keys.to_set().contains(chunk_key(c)));
            let i = choose|i: int| 0 <= i < keys.len() && keys[i] == chunk_key(c);
            assert(coords[i] == c);
        }
    }
    assert(coords.to_set() =~= chunks_view(chunks).dom());
}

/// Lists the chunks of a sculpt map as `("x,y", offsets)` pairs, the form in
/// which a sculpt map is saved.
pub fn serialize(chunks: &HashMap<u64, ChunkOffsets>) -> (pairs: Vec<(String, ChunkOffsets)>)
    ensures
        exists|coords: Seq<ChunkCoord>| lists_chunks(chunks_view(chunks@), coords, pairs@),
{
    let mut pairs: Vec<(String, ChunkOffsets)> = Vec::new();
    let ghost mut coords: Seq<ChunkCoord> = Seq::empty();
    let ghost mut keys: Seq<u64> = Seq::empty();
    let ghost view = chunks_view(chunks@);
    for k in it: chunks.keys()
        invariant
            view == chunks_view(chunks@),
            it.seq().unref().to_set() == chunks@.dom(),
            it.seq().unref().no_duplicates(),
            keys == it.seq().unref().take(it.index() as int),
            it.index() == it.seq().len() ==> keys == it.seq().unref(),
            coords.len() == pairs.len(),
            coords.len() == keys.len(),
            forall|i: int| 0 <= i < coords.len() ==> #[trigger] coords[i] == chunk_of_key(keys[i]),
            forall|i: int| 0 <= i < pairs.len() ==> {
                &&& (#[trigger] pairs@[i]).0@ == chunk_key_text(coords[i].x, coords[i].y)
                &&& pairs@[i].1.deep_view() == view[coords[i]]
            },
    {
        let key: u64 = *k;
        let coord = ChunkCoord::from_key(key);
        proof {
            lemma_chunk_key_bijective(coord, key);
            assert(it.seq().unref().to_set().contains(key));
            assert(it.seq().unref().take(it.seq().len() as int) =~= it.seq().unref());
        }
        let offsets = clone_offsets(chunks.get(&key).unwrap());
        pairs.push((format_chunk_key(coord.x, coord.y), offsets));
        proof {
            coords = coords.push(coord);
            keys = keys.push(key);
        }
    }
    proof {
        lemma_coords_of_keys(chunks@, keys, coords);
        assert(lists_chunks(view, coords, pairs@));
    }
    pairs
}


/// Builds a sculpt map from saved `("x,y", offsets)` pairs. A pair whose key
/// does not read as two `i32`s is skipped; a later pair for the same chunk
/// replaces an earlier one.
pub fn deserialize(pairs: Vec<(String, ChunkOffsets)>) -> (chunks: HashMap<u64, ChunkOffsets>)
    ensures
        chunks_view(chunks@) == pairs_chunks(pairs@),
{
    let mut map = SculptMap::new();
    let ghost all = pairs@;
    for pair in it: pairs.into_iter()
        invariant
            it.seq() == all,
            map@ == pairs_chunks(all.take(it.index() as int)),
    {
        let ghost i = it.index();
        assert(all.take(i + 1).drop_last() =~= all.take(i as int));
        assert(all.take(i + 1).last() == all[i as int]);
        let (key, offsets) = pair;
        match parse_chunk_key(key.as_str()) {
            Some((x, y)) => {
                map.insert(ChunkCoord::new(x, y), offsets);
            },
            None => {},
        }
    }
    assert(all.take(all.len() as int) =~= all);
    map.chunks
}

/// Loading what was saved gives back the same sculpt map: whatever order
/// `serialize` lists the chunks in, `deserialize` rebuilds every chunk with
/// its offsets and nothing else.
pub proof fn lemma_sculpt_map_save_load(
    chunks: Map<ChunkCoord, Seq<Seq<u32>>>,
    coords: Seq<ChunkCoord>,
    pairs: Seq<(String, ChunkOffsets)>,
)
    requires
        lists_chunks(chunks, coords, pairs),
    ensures
        pairs_chunks(pairs) == chunks,
{
    lemma_pairs_prefix(chunks, coords, pairs, pairs.len() as int);
    assert(pairs.take(pairs.len() as int) =~= pairs);
    assert(coords.take(coords.len() as int) =~= coords);
    assert(chunks.restrict(coords.to_set()) =~= chunks);
}

proof fn lemma_pairs_prefix(
    chunks: Map<ChunkCoord, Seq<Seq<u32>>>,
    coords: Seq<ChunkCoord>,
    pairs: Seq<(String, ChunkOffsets)>,
    k: int,
)
    requires
        lists_chunks(chunks, coords, pairs),
        0 <= k <= pairs.len(),
    ensures
        pairs_chunks(pairs.take(k)) == chunks.restrict(coords.take(k).to_set()),
    decreases k,
{
    if k == 0 {
        assert(pairs.take(0) =~= Seq::<(String, ChunkOffsets)>::empty());
        assert(chunks.restrict(coords.take(0).to_set()) =~= Map::<ChunkCoord, Seq<Seq<u32>>>::empty());
    } else {
        lemma_pairs_prefix(chunks, coords, pairs, k - 1);
        let c = coords[k - 1];
        assert(pairs.take(k).drop_last() =~= pairs.take(k - 1));
        assert(pairs.take(k).last() == pairs[k - 1]);
        lemma_chunk_key_round_trip(c.x, c.y);
        assert(coords.to_set().contains(c));
        lemma_take_to_set_step(coords, k - 1);
        assert(chunks.restrict(coords.take(k).to_set()) =~= chunks.restrict(coords.take(k - 1).to_set()).insert(c, chunks[c]));
    }
}

} // verus!
