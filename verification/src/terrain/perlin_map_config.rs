//! The map configuration edited in the terrain editor: the noise parameters,
//! the draw mode, the level-of-detail bands of the endless terrain, the colour
//! regions and the fall-off map, with the setters the editor's controls call.
//!
//! Every setter returns whether it changed the configuration, so that callers
//! only mark the configuration dirty, and save it, when something changed.
//! Floating-point fields are held as IEEE-754 bit patterns (see
//! `crate::float_bits`); the setters that do arithmetic on them live with the
//! application.
use vstd::prelude::*;
use crate::float_bits::{
    f32_eq, f32_grid_eq, f32_grid_same, f32_is_positive_finite, f32_positive_finite, f32_same, f64_finite,
    f64_is_finite, f64_is_non_negative_finite, f64_is_positive_finite, f64_non_negative_finite,
    f64_positive_finite, f64_le, f64_less_or_same,
};
use crate::terrain::height_curve::{HeightCurve, MIN_POINT_COUNT, default_points, points_same};
use crate::terrain_painter::sculpt_map::clone_offsets;
use crate::float_bits::{f32_finite, f32_is_finite, f32_le, lemma_below_one};
use crate::sorting::{sort_by_total_order, sorted_by_key};
use crate::terrain::config::{at_least_min_distance, MIN_VISIBLE_DISTANCE};

verus! {

/// The finest level of detail.
pub const MIN_LEVEL_OF_DETAIL: u32 = 0;

/// The coarsest level of detail.
pub const MAX_LEVEL_OF_DETAIL: u32 = 6;

/// What the ground plane shows.
#[derive(Clone, Copy, Debug, PartialEq, Eq, Structural)]
pub enum DrawMode {
    NoiseMap,
    ColorMap,
    Mesh,
    EndlessTerrain,
    FallOffMap,
}

/// The label shown for a draw mode in the editor.
pub open spec fn draw_mode_label(mode: DrawMode) -> Seq<char> {
    match mode {
        DrawMode::NoiseMap => "Noise Map"@,
        DrawMode::ColorMap => "Color Map"@,
        DrawMode::Mesh => "Mesh"@,
        DrawMode::EndlessTerrain => "Endless Terrain"@,
        DrawMode::FallOffMap => "Fall-Off Map"@,
    }
}

impl DrawMode {
    /// Every draw mode, in the order the editor lists them.
    pub fn all() -> (modes: [DrawMode; 5])
        ensures
            modes@ == seq![
                DrawMode::NoiseMap,
                DrawMode::ColorMap,
                DrawMode::Mesh,
                DrawMode::EndlessTerrain,
                DrawMode::FallOffMap,
            ],
    {
        [Self::NoiseMap, Self::ColorMap, Self::Mesh, Self::EndlessTerrain, Self::FallOffMap]
    }

    /// The label shown for this draw mode.
    pub fn label(self) -> (label: &'static str)
        ensures
            label@ == draw_mode_label(self),
    {
        match self {
            Self::NoiseMap => "Noise Map",
            Self::ColorMap => "Color Map",
            Self::Mesh => "Mesh",
            Self::EndlessTerrain => "Endless Terrain",
            Self::FallOffMap => "Fall-Off Map",
        }
    }
}

impl Default for DrawMode {
    fn default() -> (mode: Self)
        ensures
            mode == DrawMode::NoiseMap,
    {
        Self::NoiseMap
    }
}

/// A colour region: heights up to `height` are painted with `color`.
/// `height` is the bit pattern of an `f64`.
#[derive(Debug)]
pub struct TerrainType {
    pub name: String,
    pub height: u64,
    pub color: (u8, u8, u8),
}

/// The default region: no name, height `0.0`, black.
pub open spec fn is_default_region(region: TerrainType) -> bool {
    &&& region.name@ == Seq::<char>::empty()
    &&& region.height == 0
    &&& region.color == (0u8, 0u8, 0u8)
}

impl Clone for TerrainType {
    fn clone(&self) -> (copy: Self)
        ensures
            copy.name@ == self.name@,
            copy.height == self.height,
            copy.color == self.color,
    {
        Self { name: self.name.clone(), height: self.height, color: self.color }
    }
}

impl Default for TerrainType {
    fn default() -> (region: Self)
        ensures
            is_default_region(region),
    {
        Self { name: String::new(), height: 0, color: (0, 0, 0) }
    }
}

/// One band of the endless terrain: chunks closer than `visible_distance`
/// (bit pattern of an `f32`) are built at `level_of_detail`.
#[derive(Clone, Copy, Debug)]
pub struct EndlessTerrainLodBand {
    pub level_of_detail: u32,
    pub visible_distance: u32,
}

impl EndlessTerrainLodBand {
    fn new(level_of_detail: u32, visible_distance: u32) -> (band: Self)
        ensures
            band.level_of_detail == level_of_detail,
            band.visible_distance == visible_distance,
    {
        Self { level_of_detail, visible_distance }
    }
}

/// Bit patterns of the default band distances 220, 420, 700 and 1050.
pub const BAND_DISTANCE_NEAR: u32 = 0x435c_0000;
pub const BAND_DISTANCE_MIDDLE: u32 = 0x43d2_0000;
pub const BAND_DISTANCE_FAR: u32 = 0x442f_0000;
pub const BAND_DISTANCE_HORIZON: u32 = 0x4483_4000;

/// The default level-of-detail bands.
pub open spec fn default_bands() -> Seq<EndlessTerrainLodBand> {
    seq![
        EndlessTerrainLodBand { level_of_detail: 0, visible_distance: BAND_DISTANCE_NEAR },
        EndlessTerrainLodBand { level_of_detail: 2, visible_distance: BAND_DISTANCE_MIDDLE },
        EndlessTerrainLodBand { level_of_detail: 4, visible_distance: BAND_DISTANCE_FAR },
        EndlessTerrainLodBand { level_of_detail: 6, visible_distance: BAND_DISTANCE_HORIZON },
    ]
}

/// Rust's derived `==` on two bands.
pub open spec fn band_same(a: EndlessTerrainLodBand, b: EndlessTerrainLodBand) -> bool {
    a.level_of_detail == b.level_of_detail && f32_same(a.visible_distance, b.visible_distance)
}

/// Rust's derived `==` on two lists of bands.
pub open spec fn bands_same(a: Seq<EndlessTerrainLodBand>, b: Seq<EndlessTerrainLodBand>) -> bool {
    &&& a.len() == b.len()
    &&& forall|i: int| 0 <= i < a.len() ==> band_same(#[trigger] a[i], b[i])
}

/// The default level-of-detail bands.
pub fn default_endless_lod_bands() -> (bands: Vec<EndlessTerrainLodBand>)
    ensures
        bands@ == default_bands(),
{
    let mut bands: Vec<EndlessTerrainLodBand> = Vec::new();
    bands.push(EndlessTerrainLodBand::new(0, BAND_DISTANCE_NEAR));
    bands.push(EndlessTerrainLodBand::new(2, BAND_DISTANCE_MIDDLE));
    bands.push(EndlessTerrainLodBand::new(4, BAND_DISTANCE_FAR));
    bands.push(EndlessTerrainLodBand::new(6, BAND_DISTANCE_HORIZON));
    bands
}

fn bands_eq(a: &Vec<EndlessTerrainLodBand>, b: &Vec<EndlessTerrainLodBand>) -> (same: bool)
    ensures
        same == bands_same(a@, b@),
{
    if a.len() != b.len() {
        return false;
    }
    let mut i: usize = 0;
    while i < a.len()
        invariant
            a.len() == b.len(),
            i <= a.len(),
            forall|j: int| 0 <= j < i ==> band_same(#[trigger] a@[j], b@[j]),
        decreases a.len() - i,
    {
        if a[i].level_of_detail != b[i].level_of_detail
            || !f32_eq(a[i].visible_distance, b[i].visible_distance) {
            return false;
        }
        i += 1;
    }
    true
}

/// Bit patterns of the default noise parameters (`f64`, except the `f32`
/// height multiplier).
pub const DEFAULT_SCALE: u64 = 0x4010_0000_0000_0000;
pub const DEFAULT_PERSISTENCE: u64 = 0x3fd9_9999_9999_999a;
pub const DEFAULT_LACUNARITY: u64 = 0x4006_6666_6666_6666;
pub const DEFAULT_FREQUENCY: u64 = 0x3ff0_0000_0000_0000;
pub const DEFAULT_HEIGHT_MULTIPLIER: u32 = 0x3f80_0000;

/// The default chunk size.
pub const DEFAULT_MAP_CHUNK_SIZE: u32 = 239;

/// The default number of noise octaves.
pub const DEFAULT_OCTAVES: u32 = 5;

/// The configuration of the generated map.
#[derive(Clone, Debug)]
pub struct MapConfigs {
    pub map_chunk_size: u32,
    pub level_of_detail: u32,
    pub scale: u64,
    pub octaves: u32,
    pub persistence: u64,
    pub lacunarity: u64,
    pub frequency: u64,
    pub seed: u32,
    pub offset_x: u64,
    pub offset_y: u64,
    pub draw_mode: DrawMode,
    pub show_uv_wireframe: bool,
    pub height_multiplier: u32,
    pub height_curve: HeightCurve,
    pub endless_lod_bands: Vec<EndlessTerrainLodBand>,
    pub regions: Vec<TerrainType>,
    pub use_falloff_map: bool,
    pub falloff_map: Vec<Vec<u32>>,
}

impl Default for MapConfigs {
    fn default() -> (configs: Self)
        ensures
            configs.map_chunk_size == DEFAULT_MAP_CHUNK_SIZE,
            configs.level_of_detail == 0,
            configs.scale == DEFAULT_SCALE,
            configs.octaves == DEFAULT_OCTAVES,
            configs.persistence == DEFAULT_PERSISTENCE,
            configs.lacunarity == DEFAULT_LACUNARITY,
            configs.frequency == DEFAULT_FREQUENCY,
            configs.seed == 0,
            configs.offset_x == 0,
            configs.offset_y == 0,
            configs.draw_mode == DrawMode::NoiseMap,
            !configs.show_uv_wireframe,
            configs.height_multiplier == DEFAULT_HEIGHT_MULTIPLIER,
            configs.height_curve.points@ == default_points(),
            configs.endless_lod_bands@ == default_bands(),
            configs.regions@.len() == 0,
            !configs.use_falloff_map,
            configs.falloff_map@.len() == 0,
    {
        Self {
            map_chunk_size: DEFAULT_MAP_CHUNK_SIZE,
            level_of_detail: 0,
            scale: DEFAULT_SCALE,
            octaves: DEFAULT_OCTAVES,
            persistence: DEFAULT_PERSISTENCE,
            lacunarity: DEFAULT_LACUNARITY,
            frequency: DEFAULT_FREQUENCY,
            seed: 0,
            offset_x: 0,
            offset_y: 0,
            draw_mode: DrawMode::default(),
            show_uv_wireframe: false,
            height_multiplier: DEFAULT_HEIGHT_MULTIPLIER,
            height_curve: HeightCurve::default(),
            endless_lod_bands: default_endless_lod_bands(),
            regions: Vec::new(),
            use_falloff_map: false,
            falloff_map: Vec::new(),
        }
    }
}


/// Writes `value` into `slot` unless it is zero or already stored there.
pub fn set_non_zero_value(slot: &mut u32, value: u32) -> (changed: bool)
    ensures
        changed == (value != 0 && *old(slot) != value),
        *final(slot) == (if changed { value } else { *old(slot) }),
{
    if value == 0 || *slot == value {
        return false;
    }
    *slot = value;
    true
}

/// Writes `value` into `slot`; reports whether it differed from what was there.
pub fn set_u32_value(slot: &mut u32, value: u32) -> (changed: bool)
    ensures
        changed == (*old(slot) != value),
        *final(slot) == value,
{
    if *slot == value {
        return false;
    }
    *slot = value;
    true
}

/// Writes `value` into `slot` when it lies in `minimum..=maximum` and differs
/// from what is stored there.
pub fn set_u32_inclusive_value(slot: &mut u32, value: u32, minimum: u32, maximum: u32) -> (changed: bool)
    ensures
        changed == (minimum <= value <= maximum && *old(slot) != value),
        *final(slot) == (if changed { value } else { *old(slot) }),
{
    if value < minimum || value > maximum {
        return false;
    }
    set_u32_value(slot, value)
}

/// Lowers a dimension by one; a dimension never goes below one.
pub fn decrement_dimension(slot: &mut u32) -> (changed: bool)
    ensures
        changed == (*old(slot) > 1),
        *final(slot) == (if changed { (*old(slot) - 1) as u32 } else { *old(slot) }),
{
    if *slot > 1 {
        *slot -= 1;
        true
    } else {
        false
    }
}

/// Raises a dimension by one, saturating at `u32::MAX`. Always reports a change.
pub fn increment_dimension(slot: &mut u32) -> (changed: bool)
    ensures
        changed,
        *final(slot) == (if *old(slot) == u32::MAX { u32::MAX } else { (*old(slot) + 1) as u32 }),
{
    *slot = slot.saturating_add(1);
    true
}

/// `value` when it is non-zero, else `fallback`.
pub fn valid_non_zero_or(value: u32, fallback: u32) -> (valid: u32)
    ensures
        valid == (if value > 0 { value } else { fallback }),
{
    if value > 0 { value } else { fallback }
}

/// `value` when it lies in `minimum..=maximum`, else `fallback`.
pub fn valid_inclusive_u32_or(value: u32, minimum: u32, maximum: u32, fallback: u32) -> (valid: u32)
    ensures
        valid == (if minimum <= value <= maximum { value } else { fallback }),
{
    if value >= minimum && value <= maximum {
        value
    } else {
        fallback
    }
}


/// `value` (an `f64`) when it is finite and above zero, else `fallback`.
pub fn valid_positive_or(value: u64, fallback: u64) -> (valid: u64)
    ensures
        valid == (if f64_is_positive_finite(value) { value } else { fallback }),
{
    if f64_positive_finite(value) { value } else { fallback }
}

/// `value` (an `f64`) when it is finite and at least zero, else `fallback`.
pub fn valid_non_negative_or(value: u64, fallback: u64) -> (valid: u64)
    ensures
        valid == (if f64_is_non_negative_finite(value) { value } else { fallback }),
{
    if f64_non_negative_finite(value) { value } else { fallback }
}

/// `value` (an `f64`) when it is finite, else `fallback`.
pub fn valid_finite_or(value: u64, fallback: u64) -> (valid: u64)
    ensures
        valid == (if f64_is_finite(value) { value } else { fallback }),
{
    if f64_finite(value) { value } else { fallback }
}

/// A copy of a list of regions.
fn clone_regions(regions: &Vec<TerrainType>) -> (copy: Vec<TerrainType>)
    ensures
        copy@.len() == regions@.len(),
        forall|i: int| 0 <= i < regions@.len() ==> {
            &&& (#[trigger] copy@[i]).name@ == regions@[i].name@
            &&& copy@[i].height == regions@[i].height
            &&& copy@[i].color == regions@[i].color
        },
{
    let mut copy: Vec<TerrainType> = Vec::new();
    let mut i: usize = 0;
    while i < regions.len()
        invariant
            i <= regions.len(),
            copy@.len() == i,
            forall|j: int| 0 <= j < i ==> {
                &&& (#[trigger] copy@[j]).name@ == regions@[j].name@
                &&& copy@[j].height == regions@[j].height
                &&& copy@[j].color == regions@[j].color
            },
        decreases regions.len() - i,
    {
        copy.push(regions[i].clone());
        i += 1;
    }
    copy
}

/// The index of the first region, from `i` on, whose height reaches `height`
/// (both `f64`s).
pub open spec fn first_region_reaching(height: u64, regions: Seq<TerrainType>, i: int) -> Option<int>
    decreases regions.len() - i,
{
    if i < 0 || i >= regions.len() {
        None
    } else if f64_less_or_same(height, regions[i].height) {
        Some(i)
    } else {
        first_region_reaching(height, regions, i + 1)
    }
}

/// The colour of terrain at `height` (an `f64`): that of the first region
/// reaching the height, opaque; opaque black when none does.
pub fn terrain_color_for_height(height: u64, regions: &Vec<TerrainType>) -> (color: [u8; 4])
    ensures
        color == match first_region_reaching(height, regions@, 0) {
            Some(i) => [regions@[i].color.0, regions@[i].color.1, regions@[i].color.2, 255u8],
            None => [0u8, 0u8, 0u8, 255u8],
        },
{
    let mut i: usize = 0;
    while i < regions.len()
        invariant
            i <= regions.len(),
            first_region_reaching(height, regions@, 0) == first_region_reaching(height, regions@, i as int),
        decreases regions.len() - i,
    {
        if f64_le(height, regions[i].height) {
            let (red, green, blue) = regions[i].color;
            return [red, green, blue, 255];
        }
        i += 1;
    }
    [0, 0, 0, 255]
}

/// `level_of_detail.clamp(MIN_LEVEL_OF_DETAIL, MAX_LEVEL_OF_DETAIL)`.
pub open spec fn clamp_level(level_of_detail: u32) -> u32 {
    if level_of_detail < MIN_LEVEL_OF_DETAIL {
        MIN_LEVEL_OF_DETAIL
    } else if level_of_detail > MAX_LEVEL_OF_DETAIL {
        MAX_LEVEL_OF_DETAIL
    } else {
        level_of_detail
    }
}

/// The bands with a finite distance, each with its level of detail clamped
/// and its distance at least `1.0`, paired with that distance for sorting.
pub open spec fn usable_bands(bands: Seq<EndlessTerrainLodBand>) -> Seq<(u32, EndlessTerrainLodBand)>
    decreases bands.len(),
{
    if bands.len() == 0 {
        Seq::empty()
    } else {
        let b = bands.last();
        let rest = usable_bands(bands.drop_last());
        if f32_is_finite(b.visible_distance) {
            let distance = at_least_min_distance(b.visible_distance);
            rest.push((distance, EndlessTerrainLodBand { level_of_detail: clamp_level(b.level_of_detail), visible_distance: distance }))
        } else {
            rest
        }
    }
}

/// The first steps of reading bands back: the usable bands (see
/// `usable_bands`) sorted by distance as `sort_by` with `f32::total_cmp`
/// sorts them, or the default bands when none is usable. Spreading bands at
/// equal distances one unit apart is floating-point work left to the caller.
pub fn usable_bands_by_distance(bands: &Vec<EndlessTerrainLodBand>) -> (sorted: Vec<EndlessTerrainLodBand>)
    ensures
        usable_bands(bands@).len() == 0 ==> sorted@ == default_bands(),
        usable_bands(bands@).len() > 0 ==> {
            &&& sorted@.len() == usable_bands(bands@).len()
            &&& forall|i: int| 0 <= i < sorted@.len() ==> #[trigger] sorted@[i] == sorted_by_key(usable_bands(bands@))[i].1
        },
{
    let mut usable: Vec<(u32, EndlessTerrainLodBand)> = Vec::new();
    let mut i: usize = 0;
    while i < bands.len()
        invariant
            i <= bands.len(),
            usable@ == usable_bands(bands@.take(i as int)),
        decreases bands.len() - i,
    {
        proof {
            assert(bands@.take(i + 1).drop_last() =~= bands@.take(i as int));
        }
        let b = bands[i];
        if f32_finite(b.visible_distance) {
            proof {
                lemma_below_one(b.visible_distance);
            }
            let distance = if f32_le(MIN_VISIBLE_DISTANCE, b.visible_distance) {
                b.visible_distance
            } else {
                MIN_VISIBLE_DISTANCE
            };
            let level_of_detail = if b.level_of_detail < MIN_LEVEL_OF_DETAIL {
                MIN_LEVEL_OF_DETAIL
            } else if b.level_of_detail > MAX_LEVEL_OF_DETAIL {
                MAX_LEVEL_OF_DETAIL
            } else {
                b.level_of_detail
            };
            usable.push((distance, EndlessTerrainLodBand { level_of_detail, visible_distance: distance }));
        }
        i += 1;
    }
    proof {
        assert(bands@.take(bands@.len() as int) =~= bands@);
    }
    if usable.len() == 0 {
        return default_endless_lod_bands();
    }
    let ordered = sort_by_total_order(usable);
    let mut sorted: Vec<EndlessTerrainLodBand> = Vec::new();
    let mut k: usize = 0;
    while k < ordered.len()
        invariant
            k <= ordered.len(),
            ordered@ == sorted_by_key(usable_bands(bands@)),
            ordered@.len() == usable_bands(bands@).len(),
            sorted@.len() == k,
            forall|j: int| 0 <= j < k ==> #[trigger] sorted@[j] == ordered@[j].1,
        decreases ordered.len() - k,
    {
        sorted.push(ordered[k].1);
        k += 1;
    }
    sorted
}

/// The region list after `set_region_count(count)`: cut to `count`, or
/// lengthened with default regions.
pub open spec fn resized_regions(old_regions: Seq<TerrainType>, new_regions: Seq<TerrainType>, count: nat) -> bool {
    &&& new_regions.len() == count
    &&& forall|i: int| 0 <= i < count && i < old_regions.len() ==> new_regions[i] == old_regions[i]
    &&& forall|i: int| old_regions.len() <= i < count ==> is_default_region(#[trigger] new_regions[i])
}

impl MapConfigs {
    /// The configuration as it is read back from a save: every invalid value
    /// replaced by its default (a chunk size or octave count of zero, a level
    /// of detail out of range, a scale, lacunarity or frequency that is not
    /// finite and positive, a persistence that is not finite and non-negative,
    /// an offset that is not finite, a height multiplier that is not finite
    /// and positive), with `height_curve` and `endless_lod_bands`, the
    /// configuration's curve and bands sanitised by the caller, in their
    /// place; everything else is kept.
    pub fn sanitized_with(&self, height_curve: HeightCurve, endless_lod_bands: Vec<EndlessTerrainLodBand>) -> (configs: MapConfigs)
        ensures
            configs.map_chunk_size == (if self.map_chunk_size > 0 { self.map_chunk_size } else { DEFAULT_MAP_CHUNK_SIZE }),
            configs.level_of_detail == (if MIN_LEVEL_OF_DETAIL <= self.level_of_detail <= MAX_LEVEL_OF_DETAIL {
                self.level_of_detail
            } else {
                0
            }),
            configs.scale == (if f64_is_positive_finite(self.scale) { self.scale } else { DEFAULT_SCALE }),
            configs.octaves == (if self.octaves > 0 { self.octaves } else { DEFAULT_OCTAVES }),
            configs.persistence == (if f64_is_non_negative_finite(self.persistence) {
                self.persistence
            } else {
                DEFAULT_PERSISTENCE
            }),
            configs.lacunarity == (if f64_is_positive_finite(self.lacunarity) { self.lacunarity } else { DEFAULT_LACUNARITY }),
            configs.frequency == (if f64_is_positive_finite(self.frequency) { self.frequency } else { DEFAULT_FREQUENCY }),
            configs.seed == self.seed,
            configs.offset_x == (if f64_is_finite(self.offset_x) { self.offset_x } else { 0 }),
            configs.offset_y == (if f64_is_finite(self.offset_y) { self.offset_y } else { 0 }),
            configs.draw_mode == self.draw_mode,
            configs.show_uv_wireframe == self.show_uv_wireframe,
            configs.height_multiplier == (if f32_is_positive_finite(self.height_multiplier) {
                self.height_multiplier
            } else {
                DEFAULT_HEIGHT_MULTIPLIER
            }),
            configs.height_curve == height_curve,
            configs.endless_lod_bands == endless_lod_bands,
            configs.regions@.len() == self.regions@.len(),
            forall|i: int| 0 <= i < self.regions@.len() ==> {
                &&& (#[trigger] configs.regions@[i]).name@ == self.regions@[i].name@
                &&& configs.regions@[i].height == self.regions@[i].height
                &&& configs.regions@[i].color == self.regions@[i].color
            },
            configs.use_falloff_map == self.use_falloff_map,
            configs.falloff_map.deep_view() == self.falloff_map.deep_view(),
    {
        MapConfigs {
            map_chunk_size: valid_non_zero_or(self.map_chunk_size, DEFAULT_MAP_CHUNK_SIZE),
            level_of_detail: valid_inclusive_u32_or(self.level_of_detail, MIN_LEVEL_OF_DETAIL, MAX_LEVEL_OF_DETAIL, 0),
            scale: valid_positive_or(self.scale, DEFAULT_SCALE),
            octaves: valid_non_zero_or(self.octaves, DEFAULT_OCTAVES),
            persistence: valid_non_negative_or(self.persistence, DEFAULT_PERSISTENCE),
            lacunarity: valid_positive_or(self.lacunarity, DEFAULT_LACUNARITY),
            frequency: valid_positive_or(self.frequency, DEFAULT_FREQUENCY),
            seed: self.seed,
            offset_x: valid_finite_or(self.offset_x, 0),
            offset_y: valid_finite_or(self.offset_y, 0),
            draw_mode: self.draw_mode,
            show_uv_wireframe: self.show_uv_wireframe,
            height_multiplier: if f32_positive_finite(self.height_multiplier) {
                self.height_multiplier
            } else {
                DEFAULT_HEIGHT_MULTIPLIER
            },
            height_curve,
            endless_lod_bands,
            regions: clone_regions(&self.regions),
            use_falloff_map: self.use_falloff_map,
            falloff_map: clone_offsets(&self.falloff_map),
        }
    }

    /// Sets the chunk size; zero is refused.
    pub fn set_map_chunk_size(&mut self, map_chunk_size: u32) -> (changed: bool)
        ensures
            changed == (map_chunk_size != 0 && old(self).map_chunk_size != map_chunk_size),
            *final(self) == (if changed {
                MapConfigs { map_chunk_size, ..*old(self) }
            } else {
                *old(self)
            }),
    {
        set_non_zero_value(&mut self.map_chunk_size, map_chunk_size)
    }

    /// Shrinks the chunk size by one, down to one.
    pub fn decrement_map_chunk_size(&mut self) -> (changed: bool)
        ensures
            changed == (old(self).map_chunk_size > 1),
            *final(self) == (if changed {
                MapConfigs { map_chunk_size: (old(self).map_chunk_size - 1) as u32, ..*old(self) }
            } else {
                *old(self)
            }),
    {
        decrement_dimension(&mut self.map_chunk_size)
    }

    /// Grows the chunk size by one, saturating.
    pub fn increment_map_chunk_size(&mut self) -> (changed: bool)
        ensures
            changed,
            *final(self) == (MapConfigs {
                map_chunk_size: if old(self).map_chunk_size == u32::MAX {
                    u32::MAX
                } else {
                    (old(self).map_chunk_size + 1) as u32
                },
                ..*old(self)
            }),
    {
        increment_dimension(&mut self.map_chunk_size)
    }

    /// Sets the level of detail; values outside `MIN_LEVEL_OF_DETAIL..=MAX_LEVEL_OF_DETAIL` are refused.
    pub fn set_level_of_detail(&mut self, level_of_detail: u32) -> (changed: bool)
        ensures
            changed == (MIN_LEVEL_OF_DETAIL <= level_of_detail <= MAX_LEVEL_OF_DETAIL
                && old(self).level_of_detail != level_of_detail),
            *final(self) == (if changed {
                MapConfigs { level_of_detail, ..*old(self) }
            } else {
                *old(self)
            }),
    {
        set_u32_inclusive_value(
            &mut self.level_of_detail,
            level_of_detail,
            MIN_LEVEL_OF_DETAIL,
            MAX_LEVEL_OF_DETAIL,
        )
    }

    /// Makes the mesh one level finer, down to `MIN_LEVEL_OF_DETAIL`.
    pub fn decrement_level_of_detail(&mut self) -> (changed: bool)
        ensures
            changed == (old(self).level_of_detail > MIN_LEVEL_OF_DETAIL),
            *final(self) == (if changed {
                MapConfigs { level_of_detail: (old(self).level_of_detail - 1) as u32, ..*old(self) }
            } else {
                *old(self)
            }),
    {
        if self.level_of_detail > MIN_LEVEL_OF_DETAIL {
            let next_level_of_detail = self.level_of_detail - 1;
            set_u32_value(&mut self.level_of_detail, next_level_of_detail)
        } else {
            false
        }
    }

    /// Makes the mesh one level coarser, up to `MAX_LEVEL_OF_DETAIL`.
    pub fn increment_level_of_detail(&mut self) -> (changed: bool)
        ensures
            changed == (old(self).level_of_detail < MAX_LEVEL_OF_DETAIL),
            *final(self) == (if changed {
                MapConfigs { level_of_detail: (old(self).level_of_detail + 1) as u32, ..*old(self) }
            } else {
                *old(self)
            }),
    {
        if self.level_of_detail < MAX_LEVEL_OF_DETAIL {
            let next_level_of_detail = self.level_of_detail + 1;
            set_u32_value(&mut self.level_of_detail, next_level_of_detail)
        } else {
            false
        }
    }

    /// Sets the noise seed.
    pub fn set_seed(&mut self, seed: u32) -> (changed: bool)
        ensures
            changed == (old(self).seed != seed),
            *final(self) == (MapConfigs { seed, ..*old(self) }),
    {
        set_u32_value(&mut self.seed, seed)
    }

    /// Lowers the seed by one, saturating at zero.
    pub fn decrement_seed(&mut self) -> (changed: bool)
        ensures
            changed == (old(self).seed != 0),
            *final(self) == (if changed {
                MapConfigs { seed: (old(self).seed - 1) as u32, ..*old(self) }
            } else {
                *old(self)
            }),
    {
        let next_seed = self.seed.saturating_sub(1);
        set_u32_value(&mut self.seed, next_seed)
    }

    /// Raises the seed by one, saturating.
    pub fn increment_seed(&mut self) -> (changed: bool)
        ensures
            changed == (old(self).seed != u32::MAX),
            *final(self) == (if changed {
                MapConfigs { seed: (old(self).seed + 1) as u32, ..*old(self) }
            } else {
                *old(self)
            }),
    {
        let next_seed = self.seed.saturating_add(1);
        set_u32_value(&mut self.seed, next_seed)
    }

    /// Removes an inner point of the height curve (see `HeightCurve::remove_point`).
    pub fn remove_height_curve_point(&mut self, index: usize) -> (changed: bool)
        requires
            old(self).height_curve.points.len() <= MIN_POINT_COUNT || index
                < old(self).height_curve.points.len(),
        ensures
            changed == (old(self).height_curve.points.len() > MIN_POINT_COUNT && index != 0 && index
                + 1 != old(self).height_curve.points.len()),
            final(self).height_curve.points@ == (if changed {
                old(self).height_curve.points@.remove(index as int)
            } else {
                old(self).height_curve.points@
            }),
            *final(self) == (MapConfigs { height_curve: final(self).height_curve, ..*old(self) }),
    {
        self.height_curve.remove_point(index)
    }

    /// Puts back the default height curve, unless it is already there.
    pub fn reset_height_curve(&mut self) -> (changed: bool)
        ensures
            changed == !points_same(old(self).height_curve.points@, default_points()),
            final(self).height_curve.points@ == (if changed {
                default_points()
            } else {
                old(self).height_curve.points@
            }),
            *final(self) == (MapConfigs { height_curve: final(self).height_curve, ..*old(self) }),
    {
        self.height_curve.reset()
    }

    /// Removes a level-of-detail band; the last remaining band stays.
    pub fn remove_endless_lod_band(&mut self, index: usize) -> (changed: bool)
        ensures
            changed == (old(self).endless_lod_bands.len() > 1 && index
                < old(self).endless_lod_bands.len()),
            final(self).endless_lod_bands@ == (if changed {
                old(self).endless_lod_bands@.remove(index as int)
            } else {
                old(self).endless_lod_bands@
            }),
            *final(self) == (MapConfigs {
                endless_lod_bands: final(self).endless_lod_bands,
                ..*old(self)
            }),
    {
        if self.endless_lod_bands.len() <= 1 || index >= self.endless_lod_bands.len() {
            return false;
        }
        self.endless_lod_bands.remove(index);
        true
    }

    /// Puts back the default bands, unless they are already there.
    pub fn reset_endless_lod_bands(&mut self) -> (changed: bool)
        ensures
            changed == !bands_same(old(self).endless_lod_bands@, default_bands()),
            final(self).endless_lod_bands@ == (if changed {
                default_bands()
            } else {
                old(self).endless_lod_bands@
            }),
            *final(self) == (MapConfigs {
                endless_lod_bands: final(self).endless_lod_bands,
                ..*old(self)
            }),
    {
        let defaults = default_endless_lod_bands();
        if bands_eq(&self.endless_lod_bands, &defaults) {
            return false;
        }
        self.endless_lod_bands = defaults;
        true
    }

    /// Sets the level of detail of a band, within the allowed range.
    pub fn set_endless_lod_band_level_of_detail(&mut self, index: usize, level_of_detail: u32) -> (changed: bool)
        ensures
            changed == (index < old(self).endless_lod_bands.len() && MIN_LEVEL_OF_DETAIL
                <= level_of_detail <= MAX_LEVEL_OF_DETAIL
                && old(self).endless_lod_bands@[index as int].level_of_detail != level_of_detail),
            final(self).endless_lod_bands@ == (if changed {
                old(self).endless_lod_bands@.update(
                    index as int,
                    EndlessTerrainLodBand {
                        level_of_detail,
                        ..old(self).endless_lod_bands@[index as int]
                    },
                )
            } else {
                old(self).endless_lod_bands@
            }),
            *final(self) == (MapConfigs {
                endless_lod_bands: final(self).endless_lod_bands,
                ..*old(self)
            }),
    {
        if index >= self.endless_lod_bands.len() {
            return false;
        }
        if level_of_detail < MIN_LEVEL_OF_DETAIL || level_of_detail > MAX_LEVEL_OF_DETAIL {
            return false;
        }
        let band = self.endless_lod_bands[index];
        if band.level_of_detail == level_of_detail {
            return false;
        }
        self.endless_lod_bands.set(index, EndlessTerrainLodBand::new(level_of_detail, band.visible_distance));
        true
    }

    /// Sets what the ground plane shows.
    pub fn set_draw_mode(&mut self, draw_mode: DrawMode) -> (changed: bool)
        ensures
            changed == (old(self).draw_mode != draw_mode),
            *final(self) == (MapConfigs { draw_mode, ..*old(self) }),
    {
        if self.draw_mode == draw_mode {
            return false;
        }
        self.draw_mode = draw_mode;
        true
    }

    /// Shows or hides the mesh wireframe.
    pub fn set_show_uv_wireframe(&mut self, show_uv_wireframe: bool) -> (changed: bool)
        ensures
            changed == (old(self).show_uv_wireframe != show_uv_wireframe),
            *final(self) == (MapConfigs { show_uv_wireframe, ..*old(self) }),
    {
        if self.show_uv_wireframe == show_uv_wireframe {
            return false;
        }
        self.show_uv_wireframe = show_uv_wireframe;
        true
    }

    /// Sets the number of colour regions: extra regions are dropped, missing
    /// ones are added as default regions.
    pub fn set_region_count(&mut self, count: usize) -> (changed: bool)
        ensures
            changed == (old(self).regions.len() != count),
            resized_regions(old(self).regions@, final(self).regions@, count as nat),
            *final(self) == (MapConfigs { regions: final(self).regions, ..*old(self) }),
    {
        if self.regions.len() == count {
            return false;
        }
        if count < self.regions.len() {
            self.regions.truncate(count);
        } else {
            let ghost start = self.regions@;
            while self.regions.len() < count
                invariant
                    *self == (MapConfigs { regions: self.regions, ..*old(self) }),
                    start == old(self).regions@,
                    start.len() <= self.regions.len() <= count,
                    forall|i: int| 0 <= i < start.len() ==> self.regions@[i] == start[i],
                    forall|i: int| start.len() <= i < self.regions.len() ==> is_default_region(#[trigger] self.regions@[i]),
                decreases count - self.regions.len(),
            {
                self.regions.push(TerrainType::default());
            }
        }
        true
    }

    /// Drops the last colour region, if there is one.
    pub fn decrement_region_count(&mut self) -> (changed: bool)
        ensures
            changed == (old(self).regions.len() > 0),
            final(self).regions@ == (if changed {
                old(self).regions@.drop_last()
            } else {
                old(self).regions@
            }),
            *final(self) == (MapConfigs { regions: final(self).regions, ..*old(self) }),
    {
        if self.regions.len() == 0 {
            return false;
        }
        self.regions.pop();
        true
    }

    /// Appends a default colour region.
    pub fn increment_region_count(&mut self) -> (changed: bool)
        ensures
            changed,
            final(self).regions@.len() == old(self).regions@.len() + 1,
            final(self).regions@.drop_last() == old(self).regions@,
            is_default_region(final(self).regions@.last()),
            *final(self) == (MapConfigs { regions: final(self).regions, ..*old(self) }),
    {
        self.regions.push(TerrainType::default());
        true
    }

    /// Renames a colour region.
    pub fn set_region_name(&mut self, index: usize, name: String) -> (changed: bool)
        ensures
            changed == (index < old(self).regions.len() && old(self).regions@[index as int].name@
                != name@),
            final(self).regions@ == (if changed {
                old(self).regions@.update(
                    index as int,
                    TerrainType { name, ..old(self).regions@[index as int] },
                )
            } else {
                old(self).regions@
            }),
            *final(self) == (MapConfigs { regions: final(self).regions, ..*old(self) }),
    {
        if index >= self.regions.len() {
            return false;
        }
        if self.regions[index].name == name {
            return false;
        }
        let height = self.regions[index].height;
        let color = self.regions[index].color;
        self.regions.set(index, TerrainType { name, height, color });
        true
    }

    /// Recolours a colour region.
    pub fn set_region_color(&mut self, index: usize, color: (u8, u8, u8)) -> (changed: bool)
        ensures
            changed == (index < old(self).regions.len() && old(self).regions@[index as int].color
                != color),
            final(self).regions@ == (if changed {
                old(self).regions@.update(
                    index as int,
                    TerrainType { color, ..old(self).regions@[index as int] },
                )
            } else {
                old(self).regions@
            }),
            *final(self) == (MapConfigs { regions: final(self).regions, ..*old(self) }),
    {
        if index >= self.regions.len() {
            return false;
        }
        let current = self.regions[index].color;
        if current.0 == color.0 && current.1 == color.1 && current.2 == color.2 {
            return false;
        }
        let name = self.regions[index].name.clone();
        let height = self.regions[index].height;
        self.regions.set(index, TerrainType { name, height, color });
        true
    }

    /// Turns the fall-off map on or off.
    pub fn set_use_falloff_map(&mut self, use_falloff_map: bool) -> (changed: bool)
        ensures
            changed == (old(self).use_falloff_map != use_falloff_map),
            *final(self) == (MapConfigs { use_falloff_map, ..*old(self) }),
    {
        if self.use_falloff_map == use_falloff_map {
            return false;
        }
        self.use_falloff_map = use_falloff_map;
        true
    }

    /// Replaces the fall-off map unless it equals the current one value by value.
    pub fn set_falloff_map(&mut self, falloff_map: Vec<Vec<u32>>) -> (changed: bool)
        ensures
            changed == !f32_grid_same(old(self).falloff_map.deep_view(), falloff_map.deep_view()),
            *final(self) == (if changed {
                MapConfigs { falloff_map, ..*old(self) }
            } else {
                *old(self)
            }),
    {
        if f32_grid_eq(&self.falloff_map, &falloff_map) {
            return false;
        }
        self.falloff_map = falloff_map;
        true
    }
}

} // verus!
