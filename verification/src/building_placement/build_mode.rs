//! What the player is building: the building type and its footprint in tiles.
use vstd::prelude::*;

verus! {

#[derive(Clone, Copy, Debug, PartialEq, Eq, Structural)]
/// The kinds of building that can be placed.
pub enum BuildingType {
    Hut,
}

impl Default for BuildingType {
    fn default() -> (building: Self)
        ensures
            building == BuildingType::Hut,
    {
        BuildingType::Hut
    }
}

/// The footprint of a building, in tiles along x and along z.
#[derive(Clone, Copy, Debug)]
pub struct BuildingSize {
    pub tiles_x: u32,
    pub tiles_z: u32,
}

impl Default for BuildingSize {
    fn default() -> (size: Self)
        ensures
            size.tiles_x == 2,
            size.tiles_z == 2,
    {
        Self { tiles_x: 2, tiles_z: 2 }
    }
}

/// Whether build mode is on, what is being placed, and its footprint.
#[derive(Clone, Copy, Debug)]
pub struct BuildMode {
    pub enabled: bool,
    pub placing_building: Option<BuildingType>,
    pub building_size: BuildingSize,
}

impl Default for BuildMode {
    fn default() -> (mode: Self)
        ensures
            !mode.enabled,
            mode.placing_building is None,
            mode.building_size.tiles_x == 2,
            mode.building_size.tiles_z == 2,
    {
        Self { enabled: false, placing_building: None, building_size: BuildingSize::default() }
    }
}

} // verus!
