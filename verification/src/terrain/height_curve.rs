//! The height curve that reshapes normalised noise into terrain height: a
//! polyline of control points over the unit square. Point coordinates are
//! `f32` values held as bit patterns (see `crate::float_bits`).
use vstd::prelude::*;
use crate::float_bits::{f32_clamp_unit, f32_clamp_unit_of, f32_eq, f32_finite, f32_is_finite, f32_same};
use crate::sorting::{sort_by_total_order, sorted_by_key};

verus! {

/// A curve keeps at least this many points; the end points cannot be removed.
pub const MIN_POINT_COUNT: usize = 2;

/// Bit pattern of `0.0f32`.
pub const F32_ZERO: u32 = 0x0000_0000;

/// Bit pattern of `0.5f32`, the default mid point.
pub const F32_HALF: u32 = 0x3f00_0000;

/// Bit pattern of `1.0f32`.
pub const F32_ONE: u32 = 0x3f80_0000;

/// One control point: `input` is the normalised noise value, `output` the
/// normalised height it maps to.
#[derive(Clone, Copy, Debug)]
pub struct HeightCurvePoint {
    pub input: u32,
    pub output: u32,
}

/// A piecewise linear curve given by its control points.
#[derive(Clone, Debug)]
pub struct HeightCurve {
    pub points: Vec<HeightCurvePoint>,
}

/// Rust's derived `==` on two control points.
pub open spec fn point_same(a: HeightCurvePoint, b: HeightCurvePoint) -> bool {
    f32_same(a.input, b.input) && f32_same(a.output, b.output)
}

/// Rust's derived `==` on two lists of control points.
pub open spec fn points_same(a: Seq<HeightCurvePoint>, b: Seq<HeightCurvePoint>) -> bool {
    &&& a.len() == b.len()
    &&& forall|i: int| 0 <= i < a.len() ==> point_same(#[trigger] a[i], b[i])
}

/// The points of the default curve: the identity through (0,0), (0.5,0.5), (1,1).
pub open spec fn default_points() -> Seq<HeightCurvePoint> {
    seq![
        HeightCurvePoint { input: F32_ZERO, output: F32_ZERO },
        HeightCurvePoint { input: F32_HALF, output: F32_HALF },
        HeightCurvePoint { input: F32_ONE, output: F32_ONE },
    ]
}

impl HeightCurvePoint {
    /// The point mapping `input` to `output`.
    pub fn new(input: u32, output: u32) -> (point: Self)
        ensures
            point.input == input,
            point.output == output,
    {
        Self { input, output }
    }
}

impl Default for HeightCurve {
    fn default() -> (curve: Self)
        ensures
            curve.points@ == default_points(),
    {
        let mut points: Vec<HeightCurvePoint> = Vec::new();
        points.push(HeightCurvePoint::new(F32_ZERO, F32_ZERO));
        points.push(HeightCurvePoint::new(F32_HALF, F32_HALF));
        points.push(HeightCurvePoint::new(F32_ONE, F32_ONE));
        Self { points }
    }
}

impl HeightCurve {
    /// Removes an inner control point. The first and last points stay, and a
    /// curve with `MIN_POINT_COUNT` points or fewer is left as it is.
    pub fn remove_point(&mut self, index: usize) -> (removed: bool)
        requires
            old(self).points.len() <= MIN_POINT_COUNT || index < old(self).points.len(),
        ensures
            removed == (old(self).points.len() > MIN_POINT_COUNT && index != 0 && index + 1
                != old(self).points.len()),
            final(self).points@ == (if removed {
                old(self).points@.remove(index as int)
            } else {
                old(self).points@
            }),
    {
        let len = self.points.len();
        if len <= MIN_POINT_COUNT || index == 0 || index + 1 == len {
            return false;
        }
        self.points.remove(index);
        true
    }

    /// Whether the curve equals the default curve under `f32` equality.
    fn is_default(&self) -> (same: bool)
        ensures
            same == points_same(self.points@, default_points()),
    {
        let defaults = Self::default();
        if self.points.len() != defaults.points.len() {
            return false;
        }
        let mut i: usize = 0;
        while i < self.points.len()
            invariant
                defaults.points@ == default_points(),
                self.points.len() == defaults.points.len(),
                i <= self.points.len(),
                forall|j: int| 0 <= j < i ==> point_same(#[trigger] self.points@[j], default_points()[j]),
            decreases self.points.len() - i,
        {
            let point = self.points[i];
            let default_point = defaults.points[i];
            if !f32_eq(point.input, default_point.input) || !f32_eq(point.output, default_point.output) {
                return false;
            }
            i += 1;
        }
        true
    }

    /// Puts back the default curve. Returns `false`, and changes nothing, when
    /// the curve already equals it.
    pub fn reset(&mut self) -> (changed: bool)
        ensures
            changed == !points_same(old(self).points@, default_points()),
            final(self).points@ == (if changed { default_points() } else { old(self).points@ }),
    {
        if self.is_default() {
            return false;
        }
        *self = Self::default();
        true
    }
}

/// The points of a curve that have a finite input and output, each clamped
/// to `0.0..=1.0`, paired with their input for sorting.
pub open spec fn usable_points(points: Seq<HeightCurvePoint>) -> Seq<(u32, HeightCurvePoint)>
    decreases points.len(),
{
    if points.len() == 0 {
        Seq::empty()
    } else {
        let p = points.last();
        let rest = usable_points(points.drop_last());
        if f32_is_finite(p.input) && f32_is_finite(p.output) {
            let clamped = HeightCurvePoint { input: f32_clamp_unit(p.input), output: f32_clamp_unit(p.output) };
            rest.push((clamped.input, clamped))
        } else {
            rest
        }
    }
}

impl HeightCurve {
    /// The first steps of reading a curve back: the points with a finite
    /// input and output, clamped to `0.0..=1.0`, sorted by input as
    /// `sort_by` with `f32::total_cmp` sorts them. Merging points with
    /// nearly equal inputs and pinning the ends are floating-point work left
    /// to the caller.
    pub fn usable_points_by_input(&self) -> (points: Vec<HeightCurvePoint>)
        ensures
            points@.len() == usable_points(self.points@).len(),
            forall|i: int| 0 <= i < points@.len() ==> #[trigger] points@[i] == sorted_by_key(usable_points(self.points@))[i].1,
    {
        let mut usable: Vec<(u32, HeightCurvePoint)> = Vec::new();
        let mut i: usize = 0;
        while i < self.points.len()
            invariant
                i <= self.points.len(),
                usable@ == usable_points(self.points@.take(i as int)),
            decreases self.points.len() - i,
        {
            proof {
                assert(self.points@.take(i + 1).drop_last() =~= self.points@.take(i as int));
            }
            let p = self.points[i];
            if f32_finite(p.input) && f32_finite(p.output) {
                let clamped = HeightCurvePoint { input: f32_clamp_unit_of(p.input), output: f32_clamp_unit_of(p.output) };
                usable.push((clamped.input, clamped));
            }
            i += 1;
        }
        proof {
            assert(self.points@.take(self.points@.len() as int) =~= self.points@);
        }
        let sorted = sort_by_total_order(usable);
        let mut points: Vec<HeightCurvePoint> = Vec::new();
        let mut k: usize = 0;
        while k < sorted.len()
            invariant
                k <= sorted.len(),
                sorted@ == sorted_by_key(usable_points(self.points@)),
                sorted@.len() == usable_points(self.points@).len(),
                points@.len() == k,
                forall|j: int| 0 <= j < k ==> #[trigger] points@[j] == sorted@[j].1,
            decreases sorted.len() - k,
        {
            points.push(sorted[k].1);
            k += 1;
        }
        points
    }
}

} // verus!
