pub mod build_mode;
pub mod ghost_placement;
