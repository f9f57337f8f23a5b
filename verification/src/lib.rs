pub mod building_placement;
pub mod float_bits;
pub mod grid_key;
pub mod map_asset;
pub mod persistence;
pub mod sorting;
pub mod terrain;
pub mod terrain_painter;
pub mod texture_files;
pub mod world_grid_config;
