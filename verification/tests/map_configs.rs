use kl_lords::terrain::config::DrawMode as ViewMode;
use kl_lords::terrain::height_curve::{HeightCurve, HeightCurvePoint};
use kl_lords::terrain::perlin_map_config::{
    decrement_dimension, increment_dimension, set_non_zero_value, set_u32_inclusive_value,
    set_u32_value, terrain_color_for_height, usable_bands_by_distance, EndlessTerrainLodBand, valid_inclusive_u32_or, valid_non_zero_or, DrawMode, MapConfigs, TerrainType,
    DEFAULT_MAP_CHUNK_SIZE, MAX_LEVEL_OF_DETAIL,
};

#[test]
fn non_zero_setter_refuses_zero_and_same_value() {
    let mut slot = 5u32;
    assert!(!set_non_zero_value(&mut slot, 0));
    assert_eq!(slot, 5);
    assert!(!set_non_zero_value(&mut slot, 5));
    assert!(set_non_zero_value(&mut slot, 7));
    assert_eq!(slot, 7);
}

#[test]
fn u32_setter_reports_change() {
    let mut slot = 3u32;
    assert!(!set_u32_value(&mut slot, 3));
    assert!(set_u32_value(&mut slot, 0));
    assert_eq!(slot, 0);
}

#[test]
fn inclusive_setter_keeps_range() {
    let mut slot = 2u32;
    assert!(!set_u32_inclusive_value(&mut slot, 7, 0, 6));
    assert_eq!(slot, 2);
    assert!(set_u32_inclusive_value(&mut slot, 6, 0, 6));
    assert_eq!(slot, 6);
    assert!(!set_u32_inclusive_value(&mut slot, 6, 0, 6));
}

#[test]
fn dimensions_stay_positive_and_saturate() {
    let mut slot = 1u32;
    assert!(!decrement_dimension(&mut slot));
    assert_eq!(slot, 1);
    let mut slot = 2u32;
    assert!(decrement_dimension(&mut slot));
    assert_eq!(slot, 1);
    let mut slot = u32::MAX;
    assert!(increment_dimension(&mut slot));
    assert_eq!(slot, u32::MAX);
    let mut slot = 9u32;
    assert!(increment_dimension(&mut slot));
    assert_eq!(slot, 10);
}

#[test]
fn fallbacks_replace_invalid_values() {
    assert_eq!(valid_non_zero_or(0, 239), 239);
    assert_eq!(valid_non_zero_or(17, 239), 17);
    assert_eq!(valid_inclusive_u32_or(7, 0, 6, 0), 0);
    assert_eq!(valid_inclusive_u32_or(4, 0, 6, 0), 4);
}

#[test]
fn default_configs() {
    let configs = MapConfigs::default();
    assert_eq!(configs.map_chunk_size, DEFAULT_MAP_CHUNK_SIZE);
    assert_eq!(configs.map_chunk_size, 239);
    assert_eq!(configs.level_of_detail, 0);
    assert_eq!(configs.octaves, 5);
    assert_eq!(configs.draw_mode, DrawMode::NoiseMap);
    assert_eq!(configs.height_curve.points.len(), 3);
    assert_eq!(configs.endless_lod_bands.len(), 4);
    assert_eq!(configs.endless_lod_bands[0].visible_distance, 220.0f32.to_bits());
    assert_eq!(configs.endless_lod_bands[3].visible_distance, 1050.0f32.to_bits());
    assert_eq!(configs.endless_lod_bands[3].level_of_detail, 6);
}

#[test]
fn level_of_detail_stays_in_range() {
    let mut configs = MapConfigs::default();
    assert!(!configs.decrement_level_of_detail());
    assert!(!configs.set_level_of_detail(MAX_LEVEL_OF_DETAIL + 1));
    assert!(configs.set_level_of_detail(MAX_LEVEL_OF_DETAIL));
    assert!(!configs.increment_level_of_detail());
    assert_eq!(configs.level_of_detail, MAX_LEVEL_OF_DETAIL);
    assert!(configs.decrement_level_of_detail());
    assert_eq!(configs.level_of_detail, MAX_LEVEL_OF_DETAIL - 1);
}

#[test]
fn chunk_size_and_seed_setters() {
    let mut configs = MapConfigs::default();
    assert!(!configs.set_map_chunk_size(0));
    assert!(configs.set_map_chunk_size(121));
    assert_eq!(configs.map_chunk_size, 121);
    assert!(configs.decrement_map_chunk_size());
    assert_eq!(configs.map_chunk_size, 120);
    assert!(configs.increment_map_chunk_size());
    assert_eq!(configs.map_chunk_size, 121);
    assert!(!configs.decrement_seed());
    assert_eq!(configs.seed, 0);
    assert!(configs.increment_seed());
    assert_eq!(configs.seed, 1);
    assert!(configs.set_seed(42));
    assert!(!configs.set_seed(42));
}

#[test]
fn curve_end_points_are_never_removed() {
    let mut configs = MapConfigs::default();
    assert!(!configs.remove_height_curve_point(0));
    assert!(!configs.remove_height_curve_point(2));
    assert!(configs.remove_height_curve_point(1));
    assert_eq!(configs.height_curve.points.len(), 2);
    assert!(!configs.remove_height_curve_point(0));
    assert!(configs.reset_height_curve());
    assert_eq!(configs.height_curve.points.len(), 3);
    assert!(!configs.reset_height_curve());
}

#[test]
fn height_curve_reset_and_removal() {
    let mut curve = HeightCurve {
        points: vec![
            HeightCurvePoint::new(0.0f32.to_bits(), 0.0f32.to_bits()),
            HeightCurvePoint::new(0.2f32.to_bits(), 0.7f32.to_bits()),
            HeightCurvePoint::new(0.6f32.to_bits(), 0.1f32.to_bits()),
            HeightCurvePoint::new(1.0f32.to_bits(), 1.0f32.to_bits()),
        ],
    };
    assert!(curve.remove_point(2));
    assert_eq!(curve.points.len(), 3);
    assert_eq!(curve.points[1].output, 0.7f32.to_bits());
    assert!(curve.reset());
    assert_eq!(curve.points[1].input, 0.5f32.to_bits());
    assert!(!curve.reset());
}

#[test]
fn last_lod_band_stays() {
    let mut configs = MapConfigs::default();
    assert!(!configs.remove_endless_lod_band(4));
    assert!(configs.remove_endless_lod_band(0));
    assert!(configs.remove_endless_lod_band(0));
    assert!(configs.remove_endless_lod_band(0));
    assert_eq!(configs.endless_lod_bands.len(), 1);
    assert!(!configs.remove_endless_lod_band(0));
    assert!(configs.reset_endless_lod_bands());
    assert_eq!(configs.endless_lod_bands.len(), 4);
    assert!(!configs.reset_endless_lod_bands());
    assert!(configs.set_endless_lod_band_level_of_detail(1, 3));
    assert_eq!(configs.endless_lod_bands[1].level_of_detail, 3);
}

#[test]
fn regions_and_flags() {
    let mut configs = MapConfigs::default();
    assert!(configs.set_region_count(2));
    assert_eq!(configs.regions.len(), 2);
    assert!(configs.set_region_name(1, "Water".to_string()));
    assert!(!configs.set_region_name(1, "Water".to_string()));
    assert!(configs.set_region_color(1, (10, 20, 30)));
    assert_eq!(configs.regions[1].color, (10, 20, 30));
    assert!(configs.increment_region_count());
    assert_eq!(configs.regions.len(), 3);
    assert!(configs.decrement_region_count());
    assert_eq!(configs.regions.len(), 2);
    assert_eq!(configs.regions[1].name, "Water");
    assert!(configs.set_draw_mode(DrawMode::Mesh));
    assert!(!configs.set_draw_mode(DrawMode::Mesh));
    assert!(configs.set_show_uv_wireframe(true));
    assert!(configs.set_use_falloff_map(true));
    assert!(!configs.set_use_falloff_map(true));
    let map = vec![vec![0.5f32.to_bits(); 2]; 2];
    assert!(configs.set_falloff_map(map.clone()));
    assert!(!configs.set_falloff_map(map));
}

#[test]
fn draw_mode_labels() {
    assert_eq!(DrawMode::ColorMap.label(), "Color Map");
    assert_eq!(DrawMode::all().len(), 5);
    assert_eq!(ViewMode::FallOffMap.label(), "Fall-Off Map");
    assert_eq!(ViewMode::all(), [ViewMode::NoiseMap, ViewMode::Mesh, ViewMode::EndlessTerrain, ViewMode::FallOffMap]);
    assert_eq!(ViewMode::default(), ViewMode::NoiseMap);
}

#[test]
fn region_colours_by_height() {
    let regions = vec![
        TerrainType { name: "Water".to_string(), height: 0.3f64.to_bits(), color: (0, 0, 200) },
        TerrainType { name: "Grass".to_string(), height: 0.8f64.to_bits(), color: (20, 160, 20) },
    ];
    let colour = |h: f32| terrain_color_for_height((h as f64).to_bits(), &regions);
    assert_eq!(colour(0.1), [0, 0, 200, 255]);
    assert_eq!(colour(0.25), [0, 0, 200, 255]);
    // 0.3 as an f32 widens to slightly more than 0.3 as an f64
    assert_eq!(colour(0.3), [20, 160, 20, 255]);
    assert_eq!(terrain_color_for_height(0.3f64.to_bits(), &regions), [0, 0, 200, 255]);
    assert_eq!(colour(0.5), [20, 160, 20, 255]);
    assert_eq!(colour(0.9), [0, 0, 0, 255]);
    assert_eq!(colour(f32::NAN), [0, 0, 0, 255]);
    assert_eq!(terrain_color_for_height(0, &vec![]), [0, 0, 0, 255]);
}

#[test]
fn usable_bands_and_points() {
    let band = |lod: u32, d: f32| EndlessTerrainLodBand { level_of_detail: lod, visible_distance: d.to_bits() };
    let bands = vec![band(9, 500.0), band(1, f32::NAN), band(2, 0.5), band(3, 500.0), band(0, f32::INFINITY), band(4, -0.0)];
    let sorted = usable_bands_by_distance(&bands);
    let got: Vec<(u32, f32)> = sorted.iter().map(|b| (b.level_of_detail, f32::from_bits(b.visible_distance))).collect();
    assert_eq!(got, vec![(2, 1.0), (4, 1.0), (6, 500.0), (3, 500.0)]);
    let none = usable_bands_by_distance(&vec![band(1, f32::NAN)]);
    assert_eq!(none.len(), 4);
    assert_eq!(none[0].visible_distance, 220.0f32.to_bits());

    let point = |i: f32, o: f32| HeightCurvePoint::new(i.to_bits(), o.to_bits());
    let curve = HeightCurve { points: vec![point(0.9, 2.0), point(f32::NAN, 0.5), point(-1.0, 0.3), point(0.4, -0.5), point(0.4, 0.7)] };
    let points = curve.usable_points_by_input();
    let got: Vec<(f32, f32)> = points.iter().map(|p| (f32::from_bits(p.input), f32::from_bits(p.output))).collect();
    assert_eq!(got, vec![(0.0, 0.3), (0.4, 0.0), (0.4, 0.7), (0.9, 1.0)]);
}
