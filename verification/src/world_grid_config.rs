//! The world grid: square tiles of the terrain that buildings occupy. A tile
//! is created the first time it is needed, with the terrain height sampled at
//! its corner (an `f32` held as a bit pattern, see `crate::float_bits`).
use vstd::prelude::*;
use std::collections::HashMap;
use crate::grid_key::{key_x, key_y, lemma_pair_key_bijective, pack_pair, pair_key, unpack_pair};

verus! {

broadcast use vstd::std_specs::hash::group_hash_axioms;

/// The number of tiles along each side of the playable grid.
pub const GRID_SIZE: usize = 256;

/// The position of a tile in the grid.
#[derive(Clone, Copy, Debug, PartialEq, Eq, Structural)]
pub struct TilePos {
    pub x: i32,
    pub y: i32,
}

impl TilePos {
    /// The tile at `(x, y)`.
    pub fn new(x: i32, y: i32) -> (pos: Self)
        ensures
            pos == (TilePos { x, y }),
    {
        Self { x, y }
    }
}

/// The key a tile is stored under.
pub open spec fn tile_key(pos: TilePos) -> u64 {
    pair_key(pos.x, pos.y)
}

/// The tile a key names.
pub open spec fn tile_of_key(k: u64) -> TilePos {
    TilePos { x: key_x(k), y: key_y(k) }
}

/// Different tiles are stored under different keys.
pub proof fn lemma_tile_key_injective(a: TilePos, b: TilePos)
    ensures
        tile_key(a) == tile_key(b) ==> a == b,
{
    lemma_pair_key_bijective(a.x, a.y, 0);
    lemma_pair_key_bijective(b.x, b.y, 0);
}

/// One tile: the terrain height at its corner and whether a building stands on it.
#[derive(Clone, Copy, Debug)]
pub struct Tile {
    pub terrain_height: u32,
    pub occupied: bool,
}

/// The tiles known so far, and whether the grid overlay is drawn.
#[derive(Debug)]
pub struct WorldGrid {
    pub tiles: HashMap<u64, Tile>,
    pub show_grid: bool,
}

/// The tiles of a map from keys to tiles, by position.
pub open spec fn tiles_view(tiles: Map<u64, Tile>) -> Map<TilePos, Tile> {
    Map::new(
        |pos: TilePos| tiles.contains_key(tile_key(pos)),
        |pos: TilePos| tiles[tile_key(pos)],
    )
}

impl View for WorldGrid {
    type V = Map<TilePos, Tile>;

    open spec fn view(&self) -> Map<TilePos, Tile> {
        tiles_view(self.tiles@)
    }
}

/// Whether a position lies on the playable grid.
pub open spec fn on_grid(pos: TilePos) -> bool {
    0 <= pos.x < GRID_SIZE && 0 <= pos.y < GRID_SIZE
}

impl Default for WorldGrid {
    fn default() -> (grid: Self)
        ensures
            grid@ == Map::<TilePos, Tile>::empty(),
            grid.show_grid,
    {
        let grid = Self { tiles: HashMap::new(), show_grid: true };
        assert(grid@ =~= Map::<TilePos, Tile>::empty());
        grid
    }
}

impl WorldGrid {
    /// Whether a position lies on the playable grid.
    pub fn is_valid(&self, pos: TilePos) -> (valid: bool)
        ensures
            valid == on_grid(pos),
    {
        pos.x >= 0 && pos.x < GRID_SIZE as i32 && pos.y >= 0 && pos.y < GRID_SIZE as i32
    }

    /// The tile at a position, if it is known.
    pub fn get_tile(&self, pos: TilePos) -> (tile: Option<&Tile>)
        ensures
            match tile {
                Some(t) => self@.contains_key(pos) && *t == self@[pos],
                None => !self@.contains_key(pos),
            },
    {
        self.tiles.get(&pack_pair(pos.x, pos.y))
    }

    /// Stores a tile at a position.
    pub fn set_tile(&mut self, pos: TilePos, tile: Tile)
        ensures
            final(self)@ == old(self)@.insert(pos, tile),
            final(self).show_grid == old(self).show_grid,
    {
        let key = pack_pair(pos.x, pos.y);
        self.tiles.insert(key, tile);
        proof {
            assert forall|p: TilePos| tile_key(p) == key implies p == pos by {
                lemma_tile_key_injective(p, pos);
            }
        }
        assert(self@ =~= old(self)@.insert(pos, tile));
    }

    /// The tile at `pos`, created with `terrain_height` and unoccupied when
    /// it does not exist yet.
    pub fn ensure_tile(&mut self, pos: TilePos, terrain_height: u32) -> (tile: Tile)
        ensures
            old(self)@.contains_key(pos) ==> final(self)@ == old(self)@ && tile == old(self)@[pos],
            !old(self)@.contains_key(pos) ==> {
                &&& tile == (Tile { terrain_height, occupied: false })
                &&& final(self)@ == old(self)@.insert(pos, tile)
            },
            final(self).show_grid == old(self).show_grid,
    {
        match self.get_tile(pos) {
            Some(tile) => *tile,
            None => {
                let tile = Tile { terrain_height, occupied: false };
                self.set_tile(pos, tile);
                tile
            },
        }
    }

    /// Sets the terrain height of an existing tile, keeping whether it is
    /// occupied; returns whether the tile exists.
    pub fn set_terrain_height(&mut self, pos: TilePos, terrain_height: u32) -> (found: bool)
        ensures
            found == old(self)@.contains_key(pos),
            found ==> final(self)@ == old(self)@.insert(
                pos,
                Tile { terrain_height, occupied: old(self)@[pos].occupied },
            ),
            !found ==> final(self)@ == old(self)@,
            final(self).show_grid == old(self).show_grid,
    {
        match self.get_tile(pos) {
            Some(tile) => {
                let occupied = tile.occupied;
                self.set_tile(pos, Tile { terrain_height, occupied });
                true
            },
            None => false,
        }
    }

    /// The positions of the known tiles, each once.
    pub fn tile_positions(&self) -> (positions: Vec<TilePos>)
        ensures
            positions@.no_duplicates(),
            positions@.to_set() == self@.dom(),
    {
        let mut positions: Vec<TilePos> = Vec::new();
        let ghost mut keys: Seq<u64> = Seq::empty();
        for k in it: self.tiles.keys()
            invariant
                it.seq().unref().to_set() == self.tiles@.dom(),
                it.seq().unref().no_duplicates(),
                keys == it.seq().unref().take(it.index() as int),
                it.index() == it.seq().len() ==> keys == it.seq().unref(),
                positions@.len() == keys.len(),
                forall|i: int| 0 <= i < positions@.len() ==> #[trigger] positions@[i] == tile_of_key(keys[i]),
        {
            let key: u64 = *k;
            proof {
                assert(it.seq().unref().take(it.seq().len() as int) =~= it.seq().unref());
            }
            let (x, y) = unpack_pair(key);
            positions.push(TilePos { x, y });
            proof {
                keys = keys.push(key);
            }
        }
        proof {
            assert forall|i: int, j: int| 0 <= i < positions@.len() && 0 <= j < positions@.len() && i != j implies positions@[i] != positions@[j] by {
                lemma_pair_key_bijective(0, 0, keys[i]);
                lemma_pair_key_bijective(0, 0, keys[j]);
            }
            assert forall|p: TilePos| positions@.to_set().contains(p) <==> self@.dom().contains(p) by {
                lemma_pair_key_bijective(p.x, p.y, tile_key(p));
                if positions@.to_set().contains(p) {
                    let i = choose|i: int| 0 <= i < positions@.len() && positions@[i] == p;
                    lemma_pair_key_bijective(p.x, p.y, keys[i]);
                    assert(keys.to_set().contains(keys[i]));
                }
                if self@.dom().contains(p) {
                    assert(keys.to_set().contains(tile_key(p)));
                    let i = choose|i: int| 0 <= i < keys.len() && keys[i] == tile_key(p);
                    assert(positions@[i] == p);
                }
            }
            assert(positions@.to_set() =~= self@.dom());
        }
        positions
    }
}

} // verus!
