use kl_lords::map_asset::{ActiveMap, DefaultMapConfig};
use kl_lords::terrain::perlin_map_config::{valid_finite_or, valid_non_negative_or, valid_positive_or, MapConfigs};
use kl_lords::persistence::unreadable_backup_name;
use kl_lords::terrain::config::{chunk_span, needs_falloff_map, DrawMode, MapGenerator};
use kl_lords::terrain::data::{NoiseData, TextureLayerConfig, WHITE};
use kl_lords::terrain::fall_off_generator::FallOffGenerator;
use kl_lords::terrain::map_controls::MapSettingsType;

#[test]
fn default_generator_settings() {
    let generator = MapGenerator::default();
    assert_eq!(generator.map_chunk_size, 241);
    assert_eq!(generator.draw_mode, DrawMode::NoiseMap);
    assert_eq!(generator.endless_lod_bands.len(), 4);
    assert_eq!(generator.endless_lod_bands[2].visible_distance, 1800.0f32.to_bits());
    assert_eq!(f64::from_bits(generator.noise_data.frequency), 0.3);
    assert_eq!(f64::from_bits(generator.noise_data.scale), 10.0);
    assert_eq!(generator.noise_data.octaves, 4);
    assert_eq!(f32::from_bits(generator.terrain_data.height_multiplier), 20.0);
    assert_eq!(f32::from_bits(generator.texture_data.min_height), -10.0);
    let layers = &generator.texture_data.layers;
    assert_eq!(layers.len(), 4);
    assert_eq!(layers[1].texture_path, "textures/sand.png");
    assert_eq!(f32::from_bits(layers[2].start_height), 0.35);
    assert_eq!(layers[3].tint.map(f32::from_bits), [0.5, 0.5, 0.5, 1.0]);
}

#[test]
fn falloff_map_is_stored_only_when_it_differs() {
    let mut generator = MapGenerator::default();
    assert!(!needs_falloff_map(&generator));
    generator.terrain_data.use_falloff_map = true;
    assert!(needs_falloff_map(&generator));
    let map = vec![vec![0.25f32.to_bits(); 3]; 3];
    assert!(generator.set_falloff_map(map.clone()));
    assert!(!needs_falloff_map(&generator));
    assert!(!generator.set_falloff_map(map));
    let mut zeros = vec![vec![0.0f32.to_bits(); 3]; 3];
    generator.set_falloff_map(zeros.clone());
    zeros[0][0] = (-0.0f32).to_bits();
    assert!(!generator.set_falloff_map(zeros));
}

#[test]
fn chunk_span_is_at_least_one() {
    let mut generator = MapGenerator::default();
    assert_eq!(chunk_span(&generator), 240);
    generator.map_chunk_size = 1;
    assert_eq!(chunk_span(&generator), 1);
    generator.map_chunk_size = 0;
    assert_eq!(chunk_span(&generator), 1);
}

#[test]
fn data_defaults() {
    let layer = TextureLayerConfig::default();
    assert_eq!(layer.texture_path, "");
    assert_eq!(f32::from_bits(layer.blend_strength), 0.1);
    assert_eq!(f32::from_bits(layer.texture_scale), 10.0);
    assert_eq!(layer.tint, WHITE);
    assert_eq!(NoiseData::default().octaves, 0);
    let _generator = FallOffGenerator;
}

#[test]
fn settings_labels() {
    assert_eq!(MapSettingsType::OffsetX.label(), "Offset X");
    assert_eq!(MapSettingsType::Frequency.label(), "Frequency");
}

#[test]
fn backup_names() {
    assert_eq!(unreadable_backup_name(Some("map_generator.toml")), "map_generator.toml.unreadable");
    assert_eq!(unreadable_backup_name(None), "persisted-data.unreadable");
}

#[test]
fn sanitized_configs_replace_invalid_values() {
    let mut configs = MapConfigs::default();
    configs.map_chunk_size = 0;
    configs.level_of_detail = 9;
    configs.scale = (-3.0f64).to_bits();
    configs.persistence = (-0.0f64).to_bits();
    configs.lacunarity = f64::NAN.to_bits();
    configs.frequency = f64::INFINITY.to_bits();
    configs.offset_x = f64::NEG_INFINITY.to_bits();
    configs.offset_y = 7.5f64.to_bits();
    configs.height_multiplier = 0.0f32.to_bits();
    configs.seed = 12;
    let curve = configs.height_curve.clone();
    let bands = configs.endless_lod_bands.clone();
    let clean = configs.sanitized_with(curve, bands);
    assert_eq!(clean.map_chunk_size, 239);
    assert_eq!(clean.level_of_detail, 0);
    assert_eq!(f64::from_bits(clean.scale), 4.0);
    assert_eq!(clean.persistence, (-0.0f64).to_bits());
    assert_eq!(f64::from_bits(clean.lacunarity), 2.8);
    assert_eq!(f64::from_bits(clean.frequency), 1.0);
    assert_eq!(clean.offset_x, 0);
    assert_eq!(f64::from_bits(clean.offset_y), 7.5);
    assert_eq!(f32::from_bits(clean.height_multiplier), 1.0);
    assert_eq!(clean.seed, 12);
    assert_eq!(valid_positive_or(f64::MIN_POSITIVE.to_bits(), 0), f64::MIN_POSITIVE.to_bits());
    assert_eq!(valid_positive_or(0.0f64.to_bits(), 9), 9);
    assert_eq!(valid_non_negative_or((-1e-300f64).to_bits(), 9), 9);
    assert_eq!(valid_finite_or(f64::MAX.to_bits(), 9), f64::MAX.to_bits());
}

#[test]
fn start_up_map_choice() {
    let mut config = DefaultMapConfig::default();
    let island = "island".to_string();
    let valley = "valley".to_string();
    assert!(config.toggle_default(&island));
    assert_eq!(config.default_map.as_deref(), Some("island"));
    assert!(config.toggle_default(&valley));
    assert_eq!(config.default_map.as_deref(), Some("valley"));
    assert!(!config.toggle_default(&valley));
    assert_eq!(config.default_map, None);
    config.toggle_default(&island);
    assert!(!config.forget(&valley));
    assert!(config.forget(&island));
    assert_eq!(config.default_map, None);
    let mut active = ActiveMap::default();
    active.open(&island);
    assert!(!active.forget(&valley));
    assert!(active.forget(&island));
    assert_eq!(active.current_map, None);
}
