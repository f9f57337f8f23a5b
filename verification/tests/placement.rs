use kl_lords::building_placement::build_mode::{BuildMode, BuildingSize, BuildingType};
use kl_lords::building_placement::ghost_placement::{
    check_overlap, placement_step, try_place_building, PlacementStep,
};
use kl_lords::world_grid_config::{Tile, TilePos, WorldGrid, GRID_SIZE};

fn heights(size: &BuildingSize, value: f32) -> Vec<Vec<u32>> {
    vec![vec![value.to_bits(); size.tiles_z as usize]; size.tiles_x as usize]
}

#[test]
fn placed_building_blocks_its_tiles() {
    let mut grid = WorldGrid::default();
    let size = BuildingSize::default();
    assert!(!check_overlap(&grid, 0, 0, &size));
    assert!(try_place_building(&mut grid, 0, 0, &size, &heights(&size, 1.0)));
    assert!(check_overlap(&grid, 1, 1, &size));
    assert!(!check_overlap(&grid, 2, 0, &size));
    assert!(!try_place_building(&mut grid, 1, 1, &size, &heights(&size, 1.0)));
    assert!(grid.get_tile(TilePos::new(2, 2)).is_none());
    assert!(try_place_building(&mut grid, 2, 0, &size, &heights(&size, 3.0)));
    let tile = grid.get_tile(TilePos::new(3, 1)).unwrap();
    assert!(tile.occupied);
    assert_eq!(tile.terrain_height, 3.0f32.to_bits());
}

#[test]
fn existing_tiles_keep_their_height_when_occupied() {
    let mut grid = WorldGrid::default();
    grid.set_tile(TilePos::new(0, 0), Tile { terrain_height: 7.0f32.to_bits(), occupied: false });
    let size = BuildingSize { tiles_x: 1, tiles_z: 1 };
    assert!(try_place_building(&mut grid, 0, 0, &size, &heights(&size, 1.0)));
    let tile = grid.get_tile(TilePos::new(0, 0)).unwrap();
    assert!(tile.occupied);
    assert_eq!(tile.terrain_height, 7.0f32.to_bits());
}

#[test]
fn grid_bounds_and_lazy_tiles() {
    let mut grid = WorldGrid::default();
    assert!(grid.is_valid(TilePos::new(0, 0)));
    assert!(!grid.is_valid(TilePos::new(GRID_SIZE as i32, 0)));
    assert!(!grid.is_valid(TilePos::new(0, -1)));
    let tile = grid.ensure_tile(TilePos::new(4, 4), 2.0f32.to_bits());
    assert!(!tile.occupied);
    let again = grid.ensure_tile(TilePos::new(4, 4), 9.0f32.to_bits());
    assert_eq!(again.terrain_height, 2.0f32.to_bits());
}

#[test]
fn placement_decisions() {
    assert_eq!(placement_step(false, true, false, true, true), PlacementStep::ClearGhost);
    assert_eq!(placement_step(true, true, false, true, true), PlacementStep::Cancel);
    assert_eq!(placement_step(true, false, false, true, true), PlacementStep::Place);
    assert_eq!(placement_step(true, false, true, true, true), PlacementStep::HideGhost);
    assert_eq!(placement_step(true, false, false, false, true), PlacementStep::ShowGhost);
    assert_eq!(placement_step(true, false, false, true, false), PlacementStep::HideGhost);
}

#[test]
fn build_mode_defaults() {
    let mode = BuildMode::default();
    assert!(!mode.enabled);
    assert!(mode.placing_building.is_none());
    assert_eq!(mode.building_size.tiles_x, 2);
    assert_eq!(BuildingType::default(), BuildingType::Hut);
}

#[test]
fn resampling_keeps_occupancy() {
    let mut grid = WorldGrid::default();
    let size = BuildingSize { tiles_x: 1, tiles_z: 1 };
    assert!(try_place_building(&mut grid, 3, 3, &size, &heights(&size, 1.0)));
    grid.ensure_tile(TilePos::new(0, 0), 2.0f32.to_bits());
    assert!(grid.set_terrain_height(TilePos::new(3, 3), 8.0f32.to_bits()));
    assert!(!grid.set_terrain_height(TilePos::new(9, 9), 8.0f32.to_bits()));
    let tile = grid.get_tile(TilePos::new(3, 3)).unwrap();
    assert!(tile.occupied);
    assert_eq!(tile.terrain_height, 8.0f32.to_bits());
    let mut positions = grid.tile_positions();
    positions.sort_by_key(|p| (p.x, p.y));
    assert_eq!(positions, vec![TilePos::new(0, 0), TilePos::new(3, 3)]);
}

#[test]
fn buildings_never_share_tiles() {
    let mut grid = WorldGrid::default();
    let size = BuildingSize { tiles_x: 3, tiles_z: 2 };
    assert!(try_place_building(&mut grid, 0, 0, &size, &heights(&size, 1.0)));
    for x in -2..3 {
        for z in -1..2 {
            let before = grid.tile_positions().len();
            let placed = try_place_building(&mut grid, x, z, &size, &heights(&size, 1.0));
            assert!(!placed, "({x}, {z}) overlaps");
            assert_eq!(grid.tile_positions().len(), before);
        }
    }
    assert!(try_place_building(&mut grid, 3, 0, &size, &heights(&size, 1.0)));
}
