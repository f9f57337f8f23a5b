use kl_lords::terrain::config::{default_endless_lod_bands, EndlessTerrainLodBand, MapGenerator};
use kl_lords::terrain::endless_terrain::{select_level_of_detail, sort_by_distance};
use kl_lords::terrain::endless_terrain::{
    ActiveChunk, ChunkBuild, DesiredChunk, EndlessTerrainState, CHUNK_BUILD_BUDGET_PER_FRAME,
};
use kl_lords::terrain_painter::sculpt_map::ChunkCoord;

fn desired(x: i32, y: i32, lod: u32) -> DesiredChunk {
    DesiredChunk { coord: ChunkCoord::new(x, y), level_of_detail: lod }
}

#[test]
fn frame_budget_builds_nearest_first() {
    let mut state = EndlessTerrainState::new();
    let wanted = vec![desired(0, 0, 0), desired(1, 0, 1), desired(0, 1, 1)];
    let plan = state.plan_frame(&wanted);
    assert!(plan.despawn.is_empty());
    assert_eq!(plan.builds, vec![ChunkBuild::Spawn(wanted[0]), ChunkBuild::Spawn(wanted[1])]);
    assert_eq!(plan.builds.len(), CHUNK_BUILD_BUDGET_PER_FRAME);
    let plan = state.plan_frame(&wanted);
    assert_eq!(plan.builds, vec![ChunkBuild::Spawn(wanted[2])]);
    let plan = state.plan_frame(&wanted);
    assert!(plan.builds.is_empty());
    assert!(plan.despawn.is_empty());
    assert_eq!(
        state.get_active(ChunkCoord::new(1, 0)),
        Some(ActiveChunk { level_of_detail: 1, terrain_epoch: 0 })
    );
}

#[test]
fn changed_settings_rebuild_chunks() {
    let mut state = EndlessTerrainState::default();
    let wanted = vec![desired(0, 0, 0), desired(1, 0, 1)];
    state.plan_frame(&wanted);
    state.map_changed();
    assert_eq!(state.terrain_epoch, 1);
    let plan = state.plan_frame(&wanted);
    assert_eq!(plan.builds, vec![ChunkBuild::Rebuild(wanted[0]), ChunkBuild::Rebuild(wanted[1])]);
    let finer = vec![desired(0, 0, 2), desired(1, 0, 1)];
    let plan = state.plan_frame(&finer);
    assert_eq!(plan.builds, vec![ChunkBuild::Rebuild(finer[0])]);
}

#[test]
fn chunks_out_of_view_are_dropped() {
    let mut state = EndlessTerrainState::new();
    state.plan_frame(&vec![desired(0, 0, 0), desired(5, 5, 0)]);
    let plan = state.plan_frame(&vec![desired(0, 0, 0)]);
    assert_eq!(plan.despawn, vec![ChunkCoord::new(5, 5)]);
    assert!(plan.builds.is_empty());
    assert_eq!(state.get_active(ChunkCoord::new(5, 5)), None);
    let dropped = state.clear_chunks();
    assert_eq!(dropped, vec![ChunkCoord::new(0, 0)]);
    assert_eq!(state.active_coords().len(), 0);
}

#[test]
fn epoch_saturates() {
    let mut state = EndlessTerrainState::new();
    state.terrain_epoch = u64::MAX;
    state.map_changed();
    assert_eq!(state.terrain_epoch, u64::MAX);
}

#[test]
fn level_of_detail_by_distance() {
    let bands = default_endless_lod_bands();
    assert_eq!(select_level_of_detail(0.0f32.to_bits(), &bands), 0);
    assert_eq!(select_level_of_detail(300.0f32.to_bits(), &bands), 0);
    assert_eq!(select_level_of_detail(300.5f32.to_bits(), &bands), 1);
    assert_eq!(select_level_of_detail(1000.0f32.to_bits(), &bands), 2);
    assert_eq!(select_level_of_detail(3000.0f32.to_bits(), &bands), 2);
    assert_eq!(select_level_of_detail(9000.0f32.to_bits(), &bands), 2);
    assert_eq!(select_level_of_detail(f32::NAN.to_bits(), &bands), 2);
    assert_eq!(select_level_of_detail(5.0f32.to_bits(), &vec![]), 0);
    let one = vec![EndlessTerrainLodBand { level_of_detail: 1, visible_distance: 10.0f32.to_bits() }];
    assert_eq!(select_level_of_detail(50.0f32.to_bits(), &one), 1);
    let mut generator = MapGenerator::default();
    assert_eq!(f32::from_bits(generator.max_endless_visible_distance()), 3200.0);
    generator.endless_lod_bands = vec![EndlessTerrainLodBand { level_of_detail: 0, visible_distance: 0.25f32.to_bits() }];
    assert_eq!(f32::from_bits(generator.max_endless_visible_distance()), 1.0);
    generator.endless_lod_bands[0].visible_distance = f32::NAN.to_bits();
    assert_eq!(f32::from_bits(generator.max_endless_visible_distance()), 1.0);
    generator.endless_lod_bands.clear();
    assert_eq!(f32::from_bits(generator.max_endless_visible_distance()), 1.0);
}

#[test]
fn chunks_sort_nearest_first_and_stably() {
    let distances = [3.0f32, -0.0, 0.0, 1.5, 3.0, f32::INFINITY, 0.25, 1.5, -2.0, 0.0];
    let items: Vec<(u32, DesiredChunk)> = distances
        .iter()
        .enumerate()
        .map(|(i, d)| (d.to_bits(), desired(i as i32, 0, 0)))
        .collect();
    let mut expected: Vec<(f32, DesiredChunk)> = distances.iter().copied().zip(items.iter().map(|item| item.1)).collect();
    expected.sort_by(|left, right| left.0.total_cmp(&right.0));
    let expected: Vec<DesiredChunk> = expected.into_iter().map(|(_, chunk)| chunk).collect();
    let sorted = sort_by_distance(items);
    assert_eq!(sorted, expected);
    assert_eq!(sorted[0].coord, ChunkCoord::new(8, 0));
    assert_eq!(sorted[1].coord, ChunkCoord::new(1, 0));
    assert_eq!(sorted[2].coord, ChunkCoord::new(2, 0));
    assert_eq!(sorted[3].coord, ChunkCoord::new(9, 0));
    assert!(sort_by_distance(vec![]).is_empty());
}
