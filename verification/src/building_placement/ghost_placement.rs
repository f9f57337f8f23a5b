//! Placing a building on the world grid: a building covers a rectangle of
//! tiles, it may only be placed where none of them is occupied, and placing
//! it marks all of them occupied.
use vstd::prelude::*;
use crate::building_placement::build_mode::BuildingSize;
use crate::world_grid_config::{Tile, TilePos, WorldGrid};

verus! {

/// Whether `pos` lies in the footprint whose lowest corner is `(tile_x, tile_z)`.
pub open spec fn in_footprint(pos: TilePos, tile_x: i32, tile_z: i32, size: BuildingSize) -> bool {
    &&& tile_x <= pos.x < tile_x + size.tiles_x
    &&& tile_z <= pos.y < tile_z + size.tiles_z
}

/// Whether some tile of the footprint is known and occupied.
pub open spec fn footprint_occupied(tiles: Map<TilePos, Tile>, tile_x: i32, tile_z: i32, size: BuildingSize) -> bool {
    exists|pos: TilePos| #[trigger] in_footprint(pos, tile_x, tile_z, size) && tiles.contains_key(pos)
        && tiles[pos].occupied
}

/// A footprint whose sides and far corner stay within `i32`.
pub open spec fn footprint_fits(tile_x: i32, tile_z: i32, size: BuildingSize) -> bool {
    &&& size.tiles_x <= i32::MAX
    &&& size.tiles_z <= i32::MAX
    &&& tile_x + size.tiles_x <= i32::MAX
    &&& tile_z + size.tiles_z <= i32::MAX
}

/// Whether a building of `size` whose lowest tile is `(tile_x, tile_z)` would
/// overlap an occupied tile.
pub fn check_overlap(world_grid: &WorldGrid, tile_x: i32, tile_z: i32, size: &BuildingSize) -> (overlaps: bool)
    requires
        footprint_fits(tile_x, tile_z, *size),
    ensures
        overlaps == footprint_occupied(world_grid@, tile_x, tile_z, *size),
{
    let end_x: i32 = tile_x + size.tiles_x as i32;
    let end_z: i32 = tile_z + size.tiles_z as i32;
    let mut x = tile_x;
    while x < end_x
        invariant
            tile_x <= x <= end_x,
            end_x == tile_x + size.tiles_x,
            end_z == tile_z + size.tiles_z,
            forall|pos: TilePos| #[trigger] in_footprint(pos, tile_x, tile_z, *size) && pos.x < x
                ==> !(world_grid@.contains_key(pos) && world_grid@[pos].occupied),
        decreases end_x - x,
    {
        let mut z = tile_z;
        while z < end_z
            invariant
                tile_x <= x < end_x,
                tile_z <= z <= end_z,
                end_x == tile_x + size.tiles_x,
                end_z == tile_z + size.tiles_z,
                forall|pos: TilePos| #[trigger] in_footprint(pos, tile_x, tile_z, *size) && pos.x < x
                    ==> !(world_grid@.contains_key(pos) && world_grid@[pos].occupied),
                forall|pos: TilePos| #[trigger] in_footprint(pos, tile_x, tile_z, *size) && pos.x == x
                    && pos.y < z ==> !(world_grid@.contains_key(pos) && world_grid@[pos].occupied),
            decreases end_z - z,
        {
            let pos = TilePos::new(x, z);
            if let Some(tile) = world_grid.get_tile(pos) {
                if tile.occupied {
                    assert(in_footprint(pos, tile_x, tile_z, *size));
                    return true;
                }
            }
            z += 1;
        }
        x += 1;
    }
    false
}

/// The world grid after placing a building: every tile of the footprint is
/// occupied, a tile that did not exist yet is created with the height given
/// for it in `heights` (indexed by offset along x, then along z), and no other
/// tile changes.
pub open spec fn occupied_grid(
    before: Map<TilePos, Tile>,
    tile_x: i32,
    tile_z: i32,
    size: BuildingSize,
    heights: Seq<Seq<u32>>,
) -> Map<TilePos, Tile> {
    Map::new(
        |pos: TilePos| before.contains_key(pos) || in_footprint(pos, tile_x, tile_z, size),
        |pos: TilePos|
            if !in_footprint(pos, tile_x, tile_z, size) {
                before[pos]
            } else if before.contains_key(pos) {
                Tile { occupied: true, ..before[pos] }
            } else {
                Tile { terrain_height: heights[pos.x - tile_x][pos.y - tile_z], occupied: true }
            },
    )
}

/// Marks the footprint of a placed building as occupied.
pub fn mark_occupied(
    world_grid: &mut WorldGrid,
    tile_x: i32,
    tile_z: i32,
    size: &BuildingSize,
    heights: &Vec<Vec<u32>>,
)
    requires
        footprint_fits(tile_x, tile_z, *size),
        heights@.len() == size.tiles_x,
        forall|i: int| 0 <= i < size.tiles_x ==> (#[trigger] heights@[i])@.len() == size.tiles_z,
    ensures
        final(world_grid)@ == occupied_grid(old(world_grid)@, tile_x, tile_z, *size, heights.deep_view()),
        forall|pos: TilePos|
            #[trigger] in_footprint(pos, tile_x, tile_z, *size) && !old(world_grid)@.contains_key(pos) ==> {
                &&& final(world_grid)@.contains_key(pos)
                &&& final(world_grid)@[pos].occupied
                &&& final(world_grid)@[pos].terrain_height == heights@[pos.x - tile_x]@[pos.y - tile_z]
            },
        forall|pos: TilePos|
            #[trigger] in_footprint(pos, tile_x, tile_z, *size) && old(world_grid)@.contains_key(pos) ==> {
                &&& final(world_grid)@.contains_key(pos)
                &&& final(world_grid)@[pos].occupied
                &&& final(world_grid)@[pos].terrain_height == old(world_grid)@[pos].terrain_height
            },
        forall|pos: TilePos|
            !#[trigger] in_footprint(pos, tile_x, tile_z, *size) ==> {
                &&& final(world_grid)@.contains_key(pos) == old(world_grid)@.contains_key(pos)
                &&& old(world_grid)@.contains_key(pos) ==> final(world_grid)@[pos] == old(world_grid)@[pos]
            },
        final(world_grid).show_grid == old(world_grid).show_grid,
{
    let ghost before = world_grid@;
    let ghost target = occupied_grid(before, tile_x, tile_z, *size, heights.deep_view());
    let end_x: i32 = tile_x + size.tiles_x as i32;
    let end_z: i32 = tile_z + size.tiles_z as i32;
    let mut x = tile_x;
    while x < end_x
        invariant
            tile_x <= x <= end_x,
            end_x == tile_x + size.tiles_x,
            end_z == tile_z + size.tiles_z,
            footprint_fits(tile_x, tile_z, *size),
            heights@.len() == size.tiles_x,
            forall|i: int| 0 <= i < size.tiles_x ==> (#[trigger] heights@[i])@.len() == size.tiles_z,
            target == occupied_grid(before, tile_x, tile_z, *size, heights.deep_view()),
            world_grid.show_grid == old(world_grid).show_grid,
            world_grid@ == Map::new(
                |pos: TilePos| before.contains_key(pos) || (in_footprint(pos, tile_x, tile_z, *size) && pos.x < x),
                |pos: TilePos| if in_footprint(pos, tile_x, tile_z, *size) && pos.x < x { target[pos] } else { before[pos] },
            ),
        decreases end_x - x,
    {
        let row = &heights[(x - tile_x) as usize];
        let mut z = tile_z;
        while z < end_z
            invariant
                tile_x <= x < end_x,
                tile_z <= z <= end_z,
                end_x == tile_x + size.tiles_x,
                end_z == tile_z + size.tiles_z,
                footprint_fits(tile_x, tile_z, *size),
                heights@.len() == size.tiles_x,
                *row == heights@[x - tile_x],
                row@.len() == size.tiles_z,
                target == occupied_grid(before, tile_x, tile_z, *size, heights.deep_view()),
                world_grid.show_grid == old(world_grid).show_grid,
                world_grid@ == Map::new(
                    |pos: TilePos| before.contains_key(pos) || (in_footprint(pos, tile_x, tile_z, *size)
                        && (pos.x < x || (pos.x == x && pos.y < z))),
                    |pos: TilePos| if in_footprint(pos, tile_x, tile_z, *size) && (pos.x < x || (pos.x
                        == x && pos.y < z)) { target[pos] } else { before[pos] },
                ),
            decreases end_z - z,
        {
            let pos = TilePos::new(x, z);
            let height = row[(z - tile_z) as usize];
            let tile = world_grid.ensure_tile(pos, height);
            world_grid.set_tile(pos, Tile { terrain_height: tile.terrain_height, occupied: true });
            proof {
                assert(in_footprint(pos, tile_x, tile_z, *size));
                assert(heights.deep_view()[x - tile_x][z - tile_z] == height);
                assert(world_grid@ =~= Map::new(
                    |p: TilePos| before.contains_key(p) || (in_footprint(p, tile_x, tile_z, *size)
                        && (p.x < x || (p.x == x && p.y < z + 1))),
                    |p: TilePos| if in_footprint(p, tile_x, tile_z, *size) && (p.x < x || (p.x
                        == x && p.y < z + 1)) { target[p] } else { before[p] },
                ));
            }
            z += 1;
        }
        assert(world_grid@ =~= Map::new(
            |p: TilePos| before.contains_key(p) || (in_footprint(p, tile_x, tile_z, *size) && p.x < x + 1),
            |p: TilePos| if in_footprint(p, tile_x, tile_z, *size) && p.x < x + 1 { target[p] } else { before[p] },
        ));
        x += 1;
    }
    assert(world_grid@ =~= target);
    proof {
        lemma_occupied_grid_tiles(before, tile_x, tile_z, *size, heights.deep_view());
        assert forall|pos: TilePos| #[trigger] in_footprint(pos, tile_x, tile_z, *size) && !before.contains_key(pos)
            implies world_grid@[pos].terrain_height == heights@[pos.x - tile_x]@[pos.y - tile_z] by {
            assert(heights.deep_view()[pos.x - tile_x] == heights@[pos.x - tile_x]@);
        }
    }
}

/// Places a building whose lowest tile is `(tile_x, tile_z)`, unless it would
/// overlap an occupied tile: then nothing changes and `false` comes back;
/// otherwise its footprint is marked occupied (see `mark_occupied`) and
/// `true` comes back.
pub fn try_place_building(
    world_grid: &mut WorldGrid,
    tile_x: i32,
    tile_z: i32,
    size: &BuildingSize,
    heights: &Vec<Vec<u32>>,
) -> (placed: bool)
    requires
        footprint_fits(tile_x, tile_z, *size),
        heights@.len() == size.tiles_x,
        forall|i: int| 0 <= i < size.tiles_x ==> (#[trigger] heights@[i])@.len() == size.tiles_z,
    ensures
        placed == !footprint_occupied(old(world_grid)@, tile_x, tile_z, *size),
        placed ==> final(world_grid)@ == occupied_grid(old(world_grid)@, tile_x, tile_z, *size, heights.deep_view()),
        placed ==> forall|pos: TilePos|
            #[trigger] in_footprint(pos, tile_x, tile_z, *size) ==> {
                &&& final(world_grid)@.contains_key(pos)
                &&& final(world_grid)@[pos].occupied
                &&& final(world_grid)@[pos].terrain_height == if old(world_grid)@.contains_key(pos) {
                    old(world_grid)@[pos].terrain_height
                } else {
                    heights@[pos.x - tile_x]@[pos.y - tile_z]
                }
            },
        !placed ==> final(world_grid)@ == old(world_grid)@,
        final(world_grid).show_grid == old(world_grid).show_grid,
{
    if check_overlap(world_grid, tile_x, tile_z, size) {
        return false;
    }
    mark_occupied(world_grid, tile_x, tile_z, size, heights);
    true
}

/// What the placement tool does with a frame's input.
#[derive(Clone, Copy, Debug, PartialEq, Eq, Structural)]
pub enum PlacementStep {
    /// No building is being placed: remove the ghost, if there is one.
    ClearGhost,
    /// Placing was cancelled (right click or escape).
    Cancel,
    /// Place the building where the cursor points.
    Place,
    /// Show the ghost where the cursor points, tinted by whether it fits.
    ShowGhost,
    /// Hide the ghost: the pointer is over the interface or off the terrain.
    HideGhost,
}

/// The placement tool's decision for a frame: whether a building is being
/// placed, whether cancel was pressed, whether the interface has the pointer
/// or keyboard, whether the left button was just clicked, and whether the
/// cursor points at the terrain.
pub fn placement_step(
    placing: bool,
    cancel_pressed: bool,
    ui_active: bool,
    left_clicked: bool,
    has_hit: bool,
) -> (step: PlacementStep)
    ensures
        step == if !placing {
            PlacementStep::ClearGhost
        } else if cancel_pressed {
            PlacementStep::Cancel
        } else if !ui_active && left_clicked && has_hit {
            PlacementStep::Place
        } else if !ui_active && has_hit {
            PlacementStep::ShowGhost
        } else {
            PlacementStep::HideGhost
        },
{
    if !placing {
        return PlacementStep::ClearGhost;
    }
    if cancel_pressed {
        return PlacementStep::Cancel;
    }
    if !ui_active && left_clicked && has_hit {
        return PlacementStep::Place;
    }
    if ui_active {
        PlacementStep::HideGhost
    } else if has_hit {
        PlacementStep::ShowGhost
    } else {
        PlacementStep::HideGhost
    }
}

/// What marking a footprint does, tile by tile: every tile of the footprint
/// is occupied afterwards; one that did not exist is created with the height
/// given for its own position, `heights[x - tile_x][z - tile_z]`; one that
/// existed keeps its height; tiles outside the footprint are untouched.
pub proof fn lemma_occupied_grid_tiles(
    before: Map<TilePos, Tile>,
    tile_x: i32,
    tile_z: i32,
    size: BuildingSize,
    heights: Seq<Seq<u32>>,
)
    ensures
        forall|pos: TilePos|
            #[trigger] in_footprint(pos, tile_x, tile_z, size) ==> {
                let after = occupied_grid(before, tile_x, tile_z, size, heights);
                &&& after.contains_key(pos)
                &&& after[pos].occupied
                &&& after[pos].terrain_height == if before.contains_key(pos) {
                    before[pos].terrain_height
                } else {
                    heights[pos.x - tile_x][pos.y - tile_z]
                }
            },
        forall|pos: TilePos|
            !#[trigger] in_footprint(pos, tile_x, tile_z, size) ==> {
                let after = occupied_grid(before, tile_x, tile_z, size, heights);
                &&& after.contains_key(pos) == before.contains_key(pos)
                &&& before.contains_key(pos) ==> after[pos] == before[pos]
            },
{
}

/// A building just placed overlaps occupied tiles: once its footprint is
/// marked, another building on any tile of it is refused.
pub proof fn lemma_placed_footprint_occupied(
    before: Map<TilePos, Tile>,
    tile_x: i32,
    tile_z: i32,
    size: BuildingSize,
    heights: Seq<Seq<u32>>,
    pos: TilePos,
)
    requires
        in_footprint(pos, tile_x, tile_z, size),
    ensures
        occupied_grid(before, tile_x, tile_z, size, heights).contains_key(pos),
        occupied_grid(before, tile_x, tile_z, size, heights)[pos].occupied,
{
}

/// A footprint that covers at least one tile is occupied once it is marked.
pub proof fn lemma_marked_footprint_overlaps(
    before: Map<TilePos, Tile>,
    tile_x: i32,
    tile_z: i32,
    size: BuildingSize,
    heights: Seq<Seq<u32>>,
)
    requires
        size.tiles_x > 0,
        size.tiles_z > 0,
    ensures
        footprint_occupied(occupied_grid(before, tile_x, tile_z, size, heights), tile_x, tile_z, size),
{
    let pos = TilePos { x: tile_x, y: tile_z };
    assert(in_footprint(pos, tile_x, tile_z, size));
}

/// A footprint overlaps nothing on a grid where no tile is occupied.
pub proof fn lemma_unoccupied_grid_free(tiles: Map<TilePos, Tile>, tile_x: i32, tile_z: i32, size: BuildingSize)
    requires
        forall|pos: TilePos| #[trigger] tiles.contains_key(pos) ==> !tiles[pos].occupied,
    ensures
        !footprint_occupied(tiles, tile_x, tile_z, size),
{
}

/// Two placed buildings never share a tile: once a building's footprint is
/// marked, a second building is placed only where it does not overlap an
/// occupied tile, so the two footprints are disjoint.
pub proof fn lemma_placed_buildings_disjoint(
    before: Map<TilePos, Tile>,
    first_x: i32,
    first_z: i32,
    first_size: BuildingSize,
    heights: Seq<Seq<u32>>,
    second_x: i32,
    second_z: i32,
    second_size: BuildingSize,
)
    requires
        !footprint_occupied(occupied_grid(before, first_x, first_z, first_size, heights), second_x, second_z, second_size),
    ensures
        forall|pos: TilePos|
            !(#[trigger] in_footprint(pos, first_x, first_z, first_size) && in_footprint(
                pos,
                second_x,
                second_z,
                second_size,
            )),
{
    assert forall|pos: TilePos|
        !(#[trigger] in_footprint(pos, first_x, first_z, first_size) && in_footprint(
            pos,
            second_x,
            second_z,
            second_size,
        )) by {
        if in_footprint(pos, first_x, first_z, first_size) && in_footprint(pos, second_x, second_z, second_size) {
            lemma_placed_footprint_occupied(before, first_x, first_z, first_size, heights, pos);
        }
    }
}

/// Nothing overlaps on an empty grid.
pub proof fn lemma_empty_grid_free(tile_x: i32, tile_z: i32, size: BuildingSize)
    ensures
        !footprint_occupied(Map::<TilePos, Tile>::empty(), tile_x, tile_z, size),
{
}

} // verus!
