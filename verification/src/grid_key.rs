//! Packing of a pair of `i32` grid coordinates into one `u64` key, so that
//! grids of tiles and chunks can be stored in maps keyed by an integer.
use vstd::prelude::*;

verus! {

/// The offset that shifts an `i32` into `0..2^32`.
pub open spec fn coord_bias() -> int {
    0x8000_0000
}

/// The key of `(x, y)`: both shifted to be non-negative, `x` in the high and
/// `y` in the low 32 bits.
pub open spec fn pair_key(x: i32, y: i32) -> u64 {
    ((x as int + coord_bias()) * 0x1_0000_0000 + (y as int + coord_bias())) as u64
}

/// The `x` of the pair a key names.
pub open spec fn key_x(k: u64) -> i32 {
    (k as int / 0x1_0000_0000 - coord_bias()) as i32
}

/// The `y` of the pair a key names.
pub open spec fn key_y(k: u64) -> i32 {
    (k as int % 0x1_0000_0000 - coord_bias()) as i32
}

/// Packing is a bijection between pairs of `i32`s and `u64`s.
pub proof fn lemma_pair_key_bijective(x: i32, y: i32, k: u64)
    ensures
        key_x(pair_key(x, y)) == x,
        key_y(pair_key(x, y)) == y,
        pair_key(key_x(k), key_y(k)) == k,
{
    let a = x as int + coord_bias();
    let b = y as int + coord_bias();
    assert((a * 0x1_0000_0000 + b) / 0x1_0000_0000 == a && (a * 0x1_0000_0000 + b) % 0x1_0000_0000
        == b) by (nonlinear_arith)
        requires
            0 <= a < 0x1_0000_0000,
            0 <= b < 0x1_0000_0000,
    ;
    assert(0 <= a * 0x1_0000_0000 + b < 0x1_0000_0000_0000_0000) by (nonlinear_arith)
        requires
            0 <= a < 0x1_0000_0000,
            0 <= b < 0x1_0000_0000,
    ;
    let kk = k as int;
    assert(kk / 0x1_0000_0000 * 0x1_0000_0000 + kk % 0x1_0000_0000 == kk && 0 <= kk / 0x1_0000_0000
        < 0x1_0000_0000 && 0 <= kk % 0x1_0000_0000 < 0x1_0000_0000) by (nonlinear_arith)
        requires
            0 <= kk < 0x1_0000_0000_0000_0000,
    ;
}

/// Two pairs have the same key only if they are the same pair.
pub proof fn lemma_pair_key_injective(x1: i32, y1: i32, x2: i32, y2: i32)
    ensures
        pair_key(x1, y1) == pair_key(x2, y2) ==> x1 == x2 && y1 == y2,
{
    lemma_pair_key_bijective(x1, y1, 0);
    lemma_pair_key_bijective(x2, y2, 0);
}

/// The key of `(x, y)`.
pub fn pack_pair(x: i32, y: i32) -> (k: u64)
    ensures
        k == pair_key(x, y),
{
    proof {
        lemma_pair_key_bijective(x, y, 0);
    }
    let high: u64 = (x as i64 + 0x8000_0000) as u64;
    let low: u64 = (y as i64 + 0x8000_0000) as u64;
    assert(high * 0x1_0000_0000 + low < 0x1_0000_0000_0000_0000) by (nonlinear_arith)
        requires
            high < 0x1_0000_0000,
            low < 0x1_0000_0000,
    ;
    high * 0x1_0000_0000 + low
}

/// The pair a key names.
pub fn unpack_pair(k: u64) -> (pair: (i32, i32))
    ensures
        pair == (key_x(k), key_y(k)),
{
    proof {
        lemma_pair_key_bijective(0, 0, k);
    }
    let x = ((k / 0x1_0000_0000) as i64 - 0x8000_0000) as i32;
    let y = ((k % 0x1_0000_0000) as i64 - 0x8000_0000) as i32;
    (x, y)
}

} // verus!
