//! The settings shown as rows of `-`/`+` buttons in the map controls panel.
use vstd::prelude::*;

verus! {

/// A setting with a row in the map controls panel.
#[derive(Clone, Copy, Debug, PartialEq, Eq, Structural)]
pub enum MapSettingsType {
    Height,
    Width,
    Scale,
    Seed,
    OffsetX,
    OffsetY,
    Persistence,
    Lacunarity,
    Frequency,
}

/// The label of a setting's row.
pub open spec fn setting_label(setting: MapSettingsType) -> Seq<char> {
    match setting {
        MapSettingsType::Height => "Height"@,
        MapSettingsType::Width => "Width"@,
        MapSettingsType::Scale => "Scale"@,
        MapSettingsType::Seed => "Seed"@,
        MapSettingsType::OffsetX => "Offset X"@,
        MapSettingsType::OffsetY => "Offset Y"@,
        MapSettingsType::Persistence => "Persistence"@,
        MapSettingsType::Lacunarity => "Lacunarity"@,
        MapSettingsType::Frequency => "Frequency"@,
    }
}

impl MapSettingsType {
    /// The label of this setting's row.
    pub fn label(&self) -> (label: &'static str)
        ensures
            label@ == setting_label(*self),
    {
        match self {
            MapSettingsType::Height => "Height",
            MapSettingsType::Width => "Width",
            MapSettingsType::Scale => "Scale",
            MapSettingsType::Seed => "Seed",
            MapSettingsType::OffsetX => "Offset X",
            MapSettingsType::OffsetY => "Offset Y",
            MapSettingsType::Persistence => "Persistence",
            MapSettingsType::Lacunarity => "Lacunarity",
            MapSettingsType::Frequency => "Frequency",
        }
    }
}

} // verus!
