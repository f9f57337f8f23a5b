pub mod config;
pub mod data;
pub mod endless_terrain;
pub mod fall_off_generator;
pub mod height_curve;
pub mod map_controls;
pub mod mesh_generator;
pub mod perlin_map_config;
pub mod regular_grid;
pub mod terrain_mesh;
