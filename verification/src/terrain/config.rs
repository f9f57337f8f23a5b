//! The terrain generator's settings: what the terrain view shows, the
//! level-of-detail bands of the endless terrain, the noise, terrain and
//! texture settings, and the fall-off map. Floating-point values are held as
//! IEEE-754 bit patterns (see `crate::float_bits`).
use vstd::prelude::*;
use crate::float_bits::{f32_grid_eq, f32_grid_same, f32_is_nan, f32_le, f32_less, lemma_below_one};
use crate::terrain::data::{LinearRgba, NoiseData, TerrainData, TextureData, TextureLayerConfig, layer_is};
use crate::terrain::height_curve::default_points;

verus! {

/// What the terrain view shows.
#[derive(Clone, Copy, Debug, PartialEq, Eq, Structural)]
pub enum DrawMode {
    NoiseMap,
    Mesh,
    EndlessTerrain,
    FallOffMap,
}

/// The label shown for a draw mode in the editor.
pub open spec fn draw_mode_label(mode: DrawMode) -> Seq<char> {
    match mode {
        DrawMode::NoiseMap => "Noise Map"@,
        DrawMode::Mesh => "Mesh"@,
        DrawMode::EndlessTerrain => "Endless Terrain"@,
        DrawMode::FallOffMap => "Fall-Off Map"@,
    }
}

impl DrawMode {
    /// Every draw mode, in the order the editor lists them.
    pub fn all() -> (modes: [DrawMode; 4])
        ensures
            modes@ == seq![DrawMode::NoiseMap, DrawMode::Mesh, DrawMode::EndlessTerrain, DrawMode::FallOffMap],
    {
        [Self::NoiseMap, Self::Mesh, Self::EndlessTerrain, Self::FallOffMap]
    }

    /// The label shown for this draw mode.
    pub fn label(self) -> (label: &'static str)
        ensures
            label@ == draw_mode_label(self),
    {
        match self {
            Self::NoiseMap => "Noise Map",
            Self::Mesh => "Mesh",
            Self::EndlessTerrain => "Endless Terrain",
            Self::FallOffMap => "Fall-Off Map",
        }
    }
}

impl Default for DrawMode {
    fn default() -> (mode: Self)
        ensures
            mode == DrawMode::NoiseMap,
    {
        Self::NoiseMap
    }
}

/// Beyond `visible_distance` (an `f32`) from the viewer, chunks are built at
/// `level_of_detail`.
#[derive(Clone, Copy, Debug, PartialEq, Eq, Structural)]
pub struct EndlessTerrainLodBand {
    pub level_of_detail: u32,
    pub visible_distance: u32,
}

impl EndlessTerrainLodBand {
    fn new(level_of_detail: u32, visible_distance: u32) -> (band: Self)
        ensures
            band == (EndlessTerrainLodBand { level_of_detail, visible_distance }),
    {
        Self { level_of_detail, visible_distance }
    }
}

/// The default bands: levels 0 to 3 out to 300, 800, 1800 and 3200.
pub open spec fn default_bands() -> Seq<EndlessTerrainLodBand> {
    seq![
        EndlessTerrainLodBand { level_of_detail: 0, visible_distance: 0x4396_0000 },
        EndlessTerrainLodBand { level_of_detail: 1, visible_distance: 0x4448_0000 },
        EndlessTerrainLodBand { level_of_detail: 2, visible_distance: 0x44e1_0000 },
        EndlessTerrainLodBand { level_of_detail: 3, visible_distance: 0x4548_0000 },
    ]
}

/// The default level-of-detail bands.
pub fn default_endless_lod_bands() -> (bands: Vec<EndlessTerrainLodBand>)
    ensures
        bands@ == default_bands(),
{
    let mut bands: Vec<EndlessTerrainLodBand> = Vec::new();
    bands.push(EndlessTerrainLodBand::new(0, 0x4396_0000));
    bands.push(EndlessTerrainLodBand::new(1, 0x4448_0000));
    bands.push(EndlessTerrainLodBand::new(2, 0x44e1_0000));
    bands.push(EndlessTerrainLodBand::new(3, 0x4548_0000));
    assert(bands@ =~= default_bands());
    bands
}

/// The settings of the terrain generator.
#[derive(Clone, Debug)]
pub struct MapGenerator {
    pub map_chunk_size: u32,
    /// An `f32` grid, row by row.
    pub falloff_map: Vec<Vec<u32>>,
    pub level_of_detail: u32,
    pub draw_mode: DrawMode,
    pub show_uv_wireframe: bool,
    pub endless_lod_bands: Vec<EndlessTerrainLodBand>,
    pub noise_data: NoiseData,
    pub terrain_data: TerrainData,
    pub texture_data: TextureData,
}

/// The default noise: frequency 0.3, scale 10, 4 octaves, lacunarity 2,
/// persistence 0.5, no offset, seed 0.
pub open spec fn default_noise() -> NoiseData {
    NoiseData {
        frequency: 0x3fd3_3333_3333_3333,
        scale: 0x4024_0000_0000_0000,
        octaves: 4,
        lacunarity: 0x4000_0000_0000_0000,
        persistence: 0x3fe0_0000_0000_0000,
        offset_x: 0,
        offset_y: 0,
        seed: 0,
    }
}

/// The default texture layers, from the lowest up: water from 0.2, sand from
/// 0.3, grass from 0.35 and rock from 0.8, each with its tint.
pub open spec fn default_layers_are(layers: Seq<TextureLayerConfig>) -> bool {
    &&& layers.len() == 4
    &&& layers[0].texture_path@ == "textures/water.png"@
    &&& layer_is(layers[0], 0x3e4c_cccd, 0x3dcc_cccd, 0, 0x40a0_0000, [0, 0, 0x3f4c_cccd, 0x3f80_0000])
    &&& layers[1].texture_path@ == "textures/sand.png"@
    &&& layer_is(layers[1], 0x3e99_999a, 0x3dcc_cccd, 0, 0x4100_0000, [0x3f66_6666, 0x3f59_999a, 0x3f00_0000, 0x3f80_0000])
    &&& layers[2].texture_path@ == "textures/grass.png"@
    &&& layer_is(layers[2], 0x3eb3_3333, 0x3e19_999a, 0, 0x4140_0000, [0x3e4c_cccd, 0x3f33_3333, 0x3dcc_cccd, 0x3f80_0000])
    &&& layers[3].texture_path@ == "textures/rock.png"@
    &&& layer_is(layers[3], 0x3f4c_cccd, 0x3dcc_cccd, 0, 0x41a0_0000, [0x3f00_0000, 0x3f00_0000, 0x3f00_0000, 0x3f80_0000])
}

/// A texture layer with no tint strength.
fn texture_layer(texture_path: &str, start_height: u32, blend_strength: u32, texture_scale: u32, tint: LinearRgba) -> (layer: TextureLayerConfig)
    ensures
        layer.texture_path@ == texture_path@,
        layer_is(layer, start_height, blend_strength, 0, texture_scale, tint),
{
    TextureLayerConfig {
        texture_path: String::from_str(texture_path),
        start_height,
        blend_strength,
        tint_strength: 0,
        texture_scale,
        tint,
    }
}

impl Default for MapGenerator {
    /// Chunks of 241 samples at full detail, showing the noise map, with the
    /// default bands, noise, a height of 20 shaped by the default curve, and
    /// the default texture layers between -10 and 40; no fall-off map yet.
    fn default() -> (generator: Self)
        ensures
            generator.map_chunk_size == 241,
            generator.level_of_detail == 0,
            generator.draw_mode == DrawMode::NoiseMap,
            !generator.show_uv_wireframe,
            generator.endless_lod_bands@ == default_bands(),
            generator.falloff_map@.len() == 0,
            generator.noise_data == default_noise(),
            !generator.terrain_data.use_falloff_map,
            generator.terrain_data.height_multiplier == 0x41a0_0000,
            generator.terrain_data.height_curve.points@ == default_points(),
            generator.texture_data.min_height == 0xc120_0000,
            generator.texture_data.max_height == 0x4220_0000,
            default_layers_are(generator.texture_data.layers@),
    {
        let mut layers: Vec<TextureLayerConfig> = Vec::new();
        proof {
            reveal_strlit("textures/water.png");
            reveal_strlit("textures/sand.png");
            reveal_strlit("textures/grass.png");
            reveal_strlit("textures/rock.png");
        }
        layers.push(texture_layer("textures/water.png", 0x3e4c_cccd, 0x3dcc_cccd, 0x40a0_0000, [0, 0, 0x3f4c_cccd, 0x3f80_0000]));
        layers.push(texture_layer("textures/sand.png", 0x3e99_999a, 0x3dcc_cccd, 0x4100_0000, [0x3f66_6666, 0x3f59_999a, 0x3f00_0000, 0x3f80_0000]));
        layers.push(texture_layer("textures/grass.png", 0x3eb3_3333, 0x3e19_999a, 0x4140_0000, [0x3e4c_cccd, 0x3f33_3333, 0x3dcc_cccd, 0x3f80_0000]));
        layers.push(texture_layer("textures/rock.png", 0x3f4c_cccd, 0x3dcc_cccd, 0x41a0_0000, [0x3f00_0000, 0x3f00_0000, 0x3f00_0000, 0x3f80_0000]));
        Self {
            map_chunk_size: 241,
            level_of_detail: 0,
            draw_mode: DrawMode::default(),
            show_uv_wireframe: false,
            endless_lod_bands: default_endless_lod_bands(),
            falloff_map: Vec::new(),
            noise_data: NoiseData {
                frequency: 0x3fd3_3333_3333_3333,
                scale: 0x4024_0000_0000_0000,
                octaves: 4,
                lacunarity: 0x4000_0000_0000_0000,
                persistence: 0x3fe0_0000_0000_0000,
                offset_x: 0,
                offset_y: 0,
                seed: 0,
            },
            terrain_data: TerrainData::new(0x41a0_0000),
            texture_data: TextureData { min_height: 0xc120_0000, max_height: 0x4220_0000, layers },
        }
    }
}

impl MapGenerator {
    /// Stores a new fall-off map, unless it equals the stored one element by
    /// element (as `f32`s); reports whether it changed.
    pub fn set_falloff_map(&mut self, falloff_map: Vec<Vec<u32>>) -> (changed: bool)
        ensures
            changed == !f32_grid_same(old(self).falloff_map.deep_view(), falloff_map.deep_view()),
            final(self).falloff_map.deep_view() == (if changed {
                falloff_map.deep_view()
            } else {
                old(self).falloff_map.deep_view()
            }),
            *final(self) == (MapGenerator { falloff_map: final(self).falloff_map, ..*old(self) }),
    {
        if f32_grid_eq(&self.falloff_map, &falloff_map) {
            return false;
        }
        self.falloff_map = falloff_map;
        true
    }
}

/// The distance between the centres of neighbouring chunks, in samples: one
/// less than the chunk size, since neighbouring chunks share their edge
/// samples, and never below one.
pub fn chunk_span(map_generator: &MapGenerator) -> (span: u32)
    ensures
        span == if map_generator.map_chunk_size > 1 {
            map_generator.map_chunk_size - 1
        } else {
            1
        },
{
    let span = map_generator.map_chunk_size.saturating_sub(1);
    if span > 1 {
        span
    } else {
        1
    }
}

/// Whether the fall-off map must be generated before it is used: it is in
/// use and has not been generated yet.
pub fn needs_falloff_map(map_generator: &MapGenerator) -> (needed: bool)
    ensures
        needed == (map_generator.terrain_data.use_falloff_map && map_generator.falloff_map@.len() == 0),
{
    map_generator.terrain_data.use_falloff_map && map_generator.falloff_map.len() == 0
}

/// The nearest distance a level-of-detail band may reach: `1.0`.
pub const MIN_VISIBLE_DISTANCE: u32 = 0x3f80_0000;

/// `f32::max(distance, 1.0)`: `1.0` when `distance` is NaN or below it.
pub open spec fn at_least_min_distance(distance: u32) -> u32 {
    if f32_is_nan(distance) || f32_less(distance, MIN_VISIBLE_DISTANCE) {
        MIN_VISIBLE_DISTANCE
    } else {
        distance
    }
}

impl MapGenerator {
    /// How far the endless terrain reaches: the last band's distance, at
    /// least `1.0`; `1.0` when there is no band.
    pub fn max_endless_visible_distance(&self) -> (distance: u32)
        ensures
            distance == if self.endless_lod_bands@.len() == 0 {
                MIN_VISIBLE_DISTANCE
            } else {
                at_least_min_distance(self.endless_lod_bands@.last().visible_distance)
            },
    {
        if self.endless_lod_bands.len() == 0 {
            return MIN_VISIBLE_DISTANCE;
        }
        let last = self.endless_lod_bands[self.endless_lod_bands.len() - 1].visible_distance;
        proof {
            lemma_below_one(last);
        }
        if f32_le(MIN_VISIBLE_DISTANCE, last) {
            last
        } else {
            MIN_VISIBLE_DISTANCE
        }
    }
}

} // verus!
