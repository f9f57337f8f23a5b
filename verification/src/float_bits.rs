//! Floating-point values are carried through the library as their IEEE-754
//! bit patterns (`u32` for `f32`, `u64` for `f64`). The library never does
//! arithmetic on them; it only moves them, classifies them (finite, positive)
//! and compares them, and comparison follows the IEEE-754 rules that Rust's
//! `==` on floats implements: NaN equals nothing, and `+0.0` equals `-0.0`.
use vstd::prelude::*;

verus! {

/// Mask that clears the sign bit of an `f32` bit pattern.
pub const F32_MAGNITUDE_MASK: u32 = 0x7fff_ffff;

/// Bit pattern of `f32::INFINITY`; magnitudes above it are NaNs.
pub const F32_INFINITY_BITS: u32 = 0x7f80_0000;

/// Whether an `f32` bit pattern encodes a NaN.
pub open spec fn f32_is_nan(bits: u32) -> bool {
    (bits & 0x7fff_ffffu32) > 0x7f80_0000u32
}

/// Whether an `f32` bit pattern encodes `+0.0` or `-0.0`.
pub open spec fn f32_is_zero(bits: u32) -> bool {
    (bits & 0x7fff_ffffu32) == 0
}

/// `a == b` for the `f32` values with bit patterns `a` and `b`.
pub open spec fn f32_same(a: u32, b: u32) -> bool {
    &&& !f32_is_nan(a)
    &&& !f32_is_nan(b)
    &&& (a == b || (f32_is_zero(a) && f32_is_zero(b)))
}

/// Element-wise `f32` equality of two rows (Rust's `==` on `Vec<f32>`).
pub open spec fn f32_row_same(a: Seq<u32>, b: Seq<u32>) -> bool {
    &&& a.len() == b.len()
    &&& forall|i: int| 0 <= i < a.len() ==> f32_same(#[trigger] a[i], b[i])
}

/// Row-wise `f32` equality of two grids (Rust's `==` on `Vec<Vec<f32>>`).
pub open spec fn f32_grid_same(a: Seq<Seq<u32>>, b: Seq<Seq<u32>>) -> bool {
    &&& a.len() == b.len()
    &&& forall|i: int| 0 <= i < a.len() ==> f32_row_same(#[trigger] a[i], b[i])
}

/// Rust's `==` on two `f32` values, given by their bit patterns.
pub fn f32_eq(a: u32, b: u32) -> (same: bool)
    ensures
        same == f32_same(a, b),
{
    let a_magnitude = a & F32_MAGNITUDE_MASK;
    let b_magnitude = b & F32_MAGNITUDE_MASK;
    if a_magnitude > F32_INFINITY_BITS || b_magnitude > F32_INFINITY_BITS {
        false
    } else {
        a == b || (a_magnitude == 0 && b_magnitude == 0)
    }
}

/// Rust's `==` on two `Vec<f32>` values.
pub fn f32_row_eq(a: &Vec<u32>, b: &Vec<u32>) -> (same: bool)
    ensures
        same == f32_row_same(a@, b@),
{
    if a.len() != b.len() {
        return false;
    }
    let mut i: usize = 0;
    while i < a.len()
        invariant
            a.len() == b.len(),
            i <= a.len(),
            forall|j: int| 0 <= j < i ==> f32_same(#[trigger] a@[j], b@[j]),
        decreases a.len() - i,
    {
        if !f32_eq(a[i], b[i]) {
            return false;
        }
        i += 1;
    }
    true
}

/// Rust's `==` on two `Vec<Vec<f32>>` values.
pub fn f32_grid_eq(a: &Vec<Vec<u32>>, b: &Vec<Vec<u32>>) -> (same: bool)
    ensures
        same == f32_grid_same(a.deep_view(), b.deep_view()),
{
    if a.len() != b.len() {
        return false;
    }
    let mut i: usize = 0;
    while i < a.len()
        invariant
            a.len() == b.len(),
            i <= a.len(),
            forall|j: int| 0 <= j < i ==> f32_row_same(#[trigger] a.deep_view()[j], b.deep_view()[j]),
        decreases a.len() - i,
    {
        assert(a.deep_view()[i as int] =~= a@[i as int]@);
        assert(b.deep_view()[i as int] =~= b@[i as int]@);
        if !f32_row_eq(&a[i], &b[i]) {
            return false;
        }
        i += 1;
    }
    true
}

/// Whether an `f64` bit pattern encodes a finite value (`f64::is_finite`):
/// its exponent is not all ones.
pub open spec fn f64_is_finite(bits: u64) -> bool {
    (bits & 0x7fff_ffff_ffff_ffffu64) < 0x7ff0_0000_0000_0000u64
}

/// Whether an `f64` bit pattern encodes a finite value above zero: the sign
/// bit is clear, the exponent is not all ones, and the value is not zero.
pub open spec fn f64_is_positive_finite(bits: u64) -> bool {
    0 < bits < 0x7ff0_0000_0000_0000u64
}

/// Whether an `f64` bit pattern encodes a finite value of at least zero
/// (`-0.0` included, as `-0.0 >= 0.0`).
pub open spec fn f64_is_non_negative_finite(bits: u64) -> bool {
    bits < 0x7ff0_0000_0000_0000u64 || bits == 0x8000_0000_0000_0000u64
}

/// Whether an `f32` bit pattern encodes a finite value above zero.
pub open spec fn f32_is_positive_finite(bits: u32) -> bool {
    0 < bits < 0x7f80_0000u32
}

/// `value.is_finite()` for the `f64` with bit pattern `bits`.
pub fn f64_finite(bits: u64) -> (finite: bool)
    ensures
        finite == f64_is_finite(bits),
{
    (bits & 0x7fff_ffff_ffff_ffffu64) < 0x7ff0_0000_0000_0000u64
}

/// `value.is_finite() && value > 0.0` for the `f64` with bit pattern `bits`.
pub fn f64_positive_finite(bits: u64) -> (positive: bool)
    ensures
        positive == f64_is_positive_finite(bits),
{
    0 < bits && bits < 0x7ff0_0000_0000_0000u64
}

/// `value.is_finite() && value >= 0.0` for the `f64` with bit pattern `bits`.
pub fn f64_non_negative_finite(bits: u64) -> (non_negative: bool)
    ensures
        non_negative == f64_is_non_negative_finite(bits),
{
    bits < 0x7ff0_0000_0000_0000u64 || bits == 0x8000_0000_0000_0000u64
}

/// `value.is_finite() && value > 0.0` for the `f32` with bit pattern `bits`.
pub fn f32_positive_finite(bits: u32) -> (positive: bool)
    ensures
        positive == f32_is_positive_finite(bits),
{
    0 < bits && bits < 0x7f80_0000u32
}

/// Whether an `f32` bit pattern has its sign bit set.
pub open spec fn f32_is_negative_bits(bits: u32) -> bool {
    bits >= 0x8000_0000u32
}

/// `a < b` for the `f32` values with bit patterns `a` and `b`: no NaN is
/// ordered, `-0.0` is not below `+0.0`, every negative value is below every
/// positive one, positive values order as their bit patterns do and negative
/// values in reverse.
pub open spec fn f32_less(a: u32, b: u32) -> bool {
    &&& !f32_is_nan(a)
    &&& !f32_is_nan(b)
    &&& !(f32_is_zero(a) && f32_is_zero(b))
    &&& if f32_is_negative_bits(a) && !f32_is_negative_bits(b) {
        true
    } else if !f32_is_negative_bits(a) && f32_is_negative_bits(b) {
        false
    } else if !f32_is_negative_bits(a) {
        a < b
    } else {
        a > b
    }
}

/// `a <= b` for the `f32` values with bit patterns `a` and `b`.
pub open spec fn f32_less_or_same(a: u32, b: u32) -> bool {
    f32_less(a, b) || f32_same(a, b)
}

/// Rust's `a <= b` on two `f32` values, given by their bit patterns.
pub fn f32_le(a: u32, b: u32) -> (le: bool)
    ensures
        le == f32_less_or_same(a, b),
{
    let a_magnitude = a & F32_MAGNITUDE_MASK;
    let b_magnitude = b & F32_MAGNITUDE_MASK;
    if a_magnitude > F32_INFINITY_BITS || b_magnitude > F32_INFINITY_BITS {
        return false;
    }
    if a_magnitude == 0 && b_magnitude == 0 {
        return true;
    }
    let a_negative = a >= 0x8000_0000u32;
    let b_negative = b >= 0x8000_0000u32;
    if a_negative && !b_negative {
        true
    } else if !a_negative && b_negative {
        false
    } else if !a_negative {
        a <= b
    } else {
        a >= b
    }
}

/// A value is below `1.0`, or NaN, exactly when `1.0 <= value` fails.
pub proof fn lemma_below_one(x: u32)
    ensures
        (f32_is_nan(x) || f32_less(x, 0x3f80_0000u32)) <==> !f32_less_or_same(0x3f80_0000u32, x),
{
    assert((f32_is_nan(x) || f32_less(x, 0x3f80_0000u32)) <==> !f32_less_or_same(0x3f80_0000u32, x))
        by (bit_vector);
}

/// Whether an `f64` bit pattern encodes a NaN.
pub open spec fn f64_is_nan(bits: u64) -> bool {
    (bits & 0x7fff_ffff_ffff_ffffu64) > 0x7ff0_0000_0000_0000u64
}

/// Whether an `f64` bit pattern encodes `+0.0` or `-0.0`.
pub open spec fn f64_is_zero(bits: u64) -> bool {
    (bits & 0x7fff_ffff_ffff_ffffu64) == 0
}

/// `a < b` for the `f64` values with bit patterns `a` and `b`, by the same
/// rules as `f32_less`.
pub open spec fn f64_less(a: u64, b: u64) -> bool {
    &&& !f64_is_nan(a)
    &&& !f64_is_nan(b)
    &&& !(f64_is_zero(a) && f64_is_zero(b))
    &&& if a >= 0x8000_0000_0000_0000u64 && b < 0x8000_0000_0000_0000u64 {
        true
    } else if a < 0x8000_0000_0000_0000u64 && b >= 0x8000_0000_0000_0000u64 {
        false
    } else if a < 0x8000_0000_0000_0000u64 {
        a < b
    } else {
        a > b
    }
}

/// `a <= b` for the `f64` values with bit patterns `a` and `b`.
pub open spec fn f64_less_or_same(a: u64, b: u64) -> bool {
    f64_less(a, b) || (!f64_is_nan(a) && !f64_is_nan(b) && (a == b || (f64_is_zero(a) && f64_is_zero(b))))
}

/// Rust's `a <= b` on two `f64` values, given by their bit patterns.
pub fn f64_le(a: u64, b: u64) -> (le: bool)
    ensures
        le == f64_less_or_same(a, b),
{
    let a_magnitude = a & 0x7fff_ffff_ffff_ffffu64;
    let b_magnitude = b & 0x7fff_ffff_ffff_ffffu64;
    if a_magnitude > 0x7ff0_0000_0000_0000u64 || b_magnitude > 0x7ff0_0000_0000_0000u64 {
        return false;
    }
    if a_magnitude == 0 && b_magnitude == 0 {
        return true;
    }
    let a_negative = a >= 0x8000_0000_0000_0000u64;
    let b_negative = b >= 0x8000_0000_0000_0000u64;
    if a_negative && !b_negative {
        true
    } else if !a_negative && b_negative {
        false
    } else if !a_negative {
        a <= b
    } else {
        a >= b
    }
}

/// Whether an `f32` bit pattern encodes a finite value (`f32::is_finite`).
pub open spec fn f32_is_finite(bits: u32) -> bool {
    (bits & 0x7fff_ffffu32) < 0x7f80_0000u32
}

/// `value.is_finite()` for the `f32` with bit pattern `bits`.
pub fn f32_finite(bits: u32) -> (finite: bool)
    ensures
        finite == f32_is_finite(bits),
{
    (bits & F32_MAGNITUDE_MASK) < F32_INFINITY_BITS
}

/// Rust's `a < b` on two `f32` values, given by their bit patterns.
pub fn f32_lt(a: u32, b: u32) -> (lt: bool)
    ensures
        lt == f32_less(a, b),
{
    let a_magnitude = a & F32_MAGNITUDE_MASK;
    let b_magnitude = b & F32_MAGNITUDE_MASK;
    if a_magnitude > F32_INFINITY_BITS || b_magnitude > F32_INFINITY_BITS {
        return false;
    }
    if a_magnitude == 0 && b_magnitude == 0 {
        return false;
    }
    let a_negative = a >= 0x8000_0000u32;
    let b_negative = b >= 0x8000_0000u32;
    if a_negative && !b_negative {
        true
    } else if !a_negative && b_negative {
        false
    } else if !a_negative {
        a < b
    } else {
        a > b
    }
}

/// `value.clamp(0.0, 1.0)` for a non-NaN `f32`: `0.0` below zero, `1.0`
/// above one, the value itself otherwise (so `-0.0` stays `-0.0`).
pub open spec fn f32_clamp_unit(bits: u32) -> u32 {
    if f32_less(bits, 0) {
        0
    } else if f32_less(0x3f80_0000u32, bits) {
        0x3f80_0000u32
    } else {
        bits
    }
}

/// `value.clamp(0.0, 1.0)` for the `f32` with bit pattern `bits`.
pub fn f32_clamp_unit_of(bits: u32) -> (clamped: u32)
    ensures
        clamped == f32_clamp_unit(bits),
{
    if f32_lt(bits, 0) {
        0
    } else if f32_lt(0x3f80_0000u32, bits) {
        0x3f80_0000u32
    } else {
        bits
    }
}

} // verus!
