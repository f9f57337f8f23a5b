//! The parts of the terrain settings: the noise, the terrain shape, and the
//! texture layers. Floating-point values are held as IEEE-754 bit patterns
//! (see `crate::float_bits`); colours are linear RGBA, one `f32` per channel.
use vstd::prelude::*;
use crate::terrain::height_curve::{HeightCurve, default_points};

verus! {

/// The parameters of the layered Perlin noise.
#[derive(Clone, Copy, Debug)]
pub struct NoiseData {
    pub frequency: u64,
    pub scale: u64,
    pub octaves: u32,
    pub lacunarity: u64,
    pub persistence: u64,
    pub offset_x: u64,
    pub offset_y: u64,
    pub seed: u32,
}

impl Default for NoiseData {
    /// Every parameter zero.
    fn default() -> (data: Self)
        ensures
            data == (NoiseData {
                frequency: 0,
                scale: 0,
                octaves: 0,
                lacunarity: 0,
                persistence: 0,
                offset_x: 0,
                offset_y: 0,
                seed: 0,
            }),
    {
        Self { frequency: 0, scale: 0, octaves: 0, lacunarity: 0, persistence: 0, offset_x: 0, offset_y: 0, seed: 0 }
    }
}

/// How noise becomes terrain: whether the fall-off map lowers the edges, the
/// height of the highest terrain, and the curve that shapes heights.
#[derive(Clone, Debug)]
pub struct TerrainData {
    pub use_falloff_map: bool,
    pub height_multiplier: u32,
    pub height_curve: HeightCurve,
}

/// A linear RGBA colour.
pub type LinearRgba = [u32; 4];

/// Opaque white.
pub const WHITE: LinearRgba = [0x3f80_0000, 0x3f80_0000, 0x3f80_0000, 0x3f80_0000];

/// One texture layer: the image, the height it starts at, how it blends with
/// the layer below, how strongly it is tinted and with what, and its scale.
#[derive(Clone, Debug)]
pub struct TextureLayerConfig {
    pub texture_path: String,
    pub start_height: u32,
    pub blend_strength: u32,
    pub tint_strength: u32,
    pub texture_scale: u32,
    pub tint: LinearRgba,
}

/// The numeric fields of a texture layer.
pub open spec fn layer_is(
    layer: TextureLayerConfig,
    start_height: u32,
    blend_strength: u32,
    tint_strength: u32,
    texture_scale: u32,
    tint: LinearRgba,
) -> bool {
    &&& layer.start_height == start_height
    &&& layer.blend_strength == blend_strength
    &&& layer.tint_strength == tint_strength
    &&& layer.texture_scale == texture_scale
    &&& layer.tint == tint
}

impl Default for TextureLayerConfig {
    /// No image, starting at `0.0`, blend `0.1`, no tint (white), scale `10.0`.
    fn default() -> (layer: Self)
        ensures
            layer.texture_path@ == Seq::<char>::empty(),
            layer_is(layer, 0, 0x3dcc_cccd, 0, 0x4120_0000, WHITE),
    {
        Self {
            texture_path: String::new(),
            start_height: 0,
            blend_strength: 0x3dcc_cccd,
            tint_strength: 0,
            texture_scale: 0x4120_0000,
            tint: WHITE,
        }
    }
}

/// The height range the texture layers span, and the layers from the lowest up.
#[derive(Clone, Debug)]
pub struct TextureData {
    pub min_height: u32,
    pub max_height: u32,
    pub layers: Vec<TextureLayerConfig>,
}

impl Default for TextureData {
    /// An empty range and no layers.
    fn default() -> (data: Self)
        ensures
            data.min_height == 0,
            data.max_height == 0,
            data.layers@.len() == 0,
    {
        Self { min_height: 0, max_height: 0, layers: Vec::new() }
    }
}

impl TerrainData {
    /// No fall-off map, heights up to `height_multiplier`, the default curve.
    pub fn new(height_multiplier: u32) -> (data: Self)
        ensures
            !data.use_falloff_map,
            data.height_multiplier == height_multiplier,
            data.height_curve.points@ == default_points(),
    {
        Self { use_falloff_map: false, height_multiplier, height_curve: HeightCurve::default() }
    }
}

} // verus!
