//! Fixed-point numbers in millionths.
//!
//! A sample, a filter tap or a gain is an `i32` that counts millionths, so
//! `ONE` stands for 1.0. Products are formed in wider integers and brought
//! back to millionths by a division that rounds toward zero.

use vstd::prelude::*;

verus! {

/// The fixed-point representation of 1.0.
pub const ONE: i32 = 1_000_000;

/// The quotient of `x` by a positive `d`, rounded toward zero.
pub open spec fn div_toward_zero(x: int, d: int) -> int
    recommends
        d > 0,
{
    if x >= 0 {
        x / d
    } else {
        -((-x) / d)
    }
}

/// `x` brought into the range of `i32`.
pub open spec fn saturated(x: int) -> int {
    if x > i32::MAX {
        i32::MAX as int
    } else if x < i32::MIN {
        i32::MIN as int
    } else {
        x
    }
}

/// `x` brought into the range from -1.0 to 1.0.
pub open spec fn clamped_to_unit(x: int) -> int {
    if x > ONE {
        ONE as int
    } else if x < -ONE {
        -ONE as int
    } else {
        x
    }
}

/// A product of two fixed-point factors, or a sum of such products, brought
/// back to millionths.
pub open spec fn rescaled(x: int) -> int {
    div_toward_zero(x, ONE as int)
}

/// Brings a sum of products back to millionths, saturating at the bounds of `i32`.
pub fn rescale(x: i128) -> (r: i32)
    ensures
        r == saturated(rescaled(x as int)),
{
    let q: i128 = x / (ONE as i128);
    if q > i32::MAX as i128 {
        i32::MAX
    } else if q < i32::MIN as i128 {
        i32::MIN
    } else {
        q as i32
    }
}

/// The product of two fixed-point numbers, in millionths.
pub open spec fn product(a: int, b: int) -> int {
    saturated(rescaled(a * b))
}

/// Multiplies two fixed-point numbers, saturating at the bounds of `i32`.
pub fn times(a: i32, b: i32) -> (r: i32)
    ensures
        r == product(a as int, b as int),
{
    assert(-0x4000_0000_0000_0000 <= a * b <= 0x4000_0000_0000_0000) by (nonlinear_arith)
        requires
            -0x8000_0000 <= a <= 0x8000_0000,
            -0x8000_0000 <= b <= 0x8000_0000,
    ;
    rescale((a as i128) * (b as i128))
}

/// The time from `then` to `now`, and 0 where `now` is the earlier of the two.
pub open spec fn time_since(now: int, then: int) -> int {
    if now <= then {
        0
    } else if now - then > i64::MAX {
        i64::MAX as int
    } else {
        now - then
    }
}

/// The time that has passed from `then` to `now`, in the unit of both.
pub fn elapsed_since(now: i64, then: i64) -> (passed: i64)
    ensures
        passed == time_since(now as int, then as int),
        passed >= 0,
{
    if now <= then {
        0
    } else {
        let passed: i128 = (now as i128) - (then as i128);
        if passed > i64::MAX as i128 {
            i64::MAX
        } else {
            passed as i64
        }
    }
}

} // verus!
