//! Integral pixel scalars and saturating arithmetic.
//!
//! Every length the solver works with is a whole number of pixels stored in
//! an `i64`. All arithmetic saturates at the `i64` range; the spec functions
//! below state the exact clamped results, so contracts elsewhere can speak of
//! pixel arithmetic without overflow side conditions.

use vstd::prelude::*;

verus! {

/// A length or coordinate in whole pixels.
pub type Px = i64;

/// The mathematical value of `a + b` clamped into the `i64` range.
pub open spec fn sat_add_spec(a: int, b: int) -> int {
    clamp_i64(a + b)
}

/// The mathematical value of `a - b` clamped into the `i64` range.
pub open spec fn sat_sub_spec(a: int, b: int) -> int {
    clamp_i64(a - b)
}

/// The mathematical value of `a * b` clamped into the `i64` range.
pub open spec fn sat_mul_spec(a: int, b: int) -> int {
    clamp_i64(a * b)
}

/// Clamps an unbounded integer into the `i64` range.
pub open spec fn clamp_i64(x: int) -> int {
    if x > i64::MAX { i64::MAX as int } else if x < i64::MIN { i64::MIN as int } else { x }
}

/// Clamps a wide intermediate result back into the pixel range.
fn clamp_wide(x: i128) -> (r: Px)
    ensures
        r as int == clamp_i64(x as int),
{
    if x > i64::MAX as i128 {
        i64::MAX
    } else if x < i64::MIN as i128 {
        i64::MIN
    } else {
        x as i64
    }
}

/// Saturating pixel addition.
pub fn sat_add(a: Px, b: Px) -> (r: Px)
    ensures
        r as int == sat_add_spec(a as int, b as int),
{
    clamp_wide(a as i128 + b as i128)
}

/// Saturating pixel subtraction.
pub fn sat_sub(a: Px, b: Px) -> (r: Px)
    ensures
        r as int == sat_sub_spec(a as int, b as int),
{
    clamp_wide(a as i128 - b as i128)
}

/// Saturating pixel multiplication.
pub fn sat_mul(a: Px, b: Px) -> (r: Px)
    ensures
        r as int == sat_mul_spec(a as int, b as int),
{
    let wa: i128 = a as i128;
    let wb: i128 = b as i128;
    proof {
        assert(wa * wb <= 0x40000000000000000000000000000000int && wa * wb
            >= -0x40000000000000000000000000000000int) by (nonlinear_arith)
            requires
                -0x8000000000000000int <= wa <= 0x7fffffffffffffffint,
                -0x8000000000000000int <= wb <= 0x7fffffffffffffffint,
        ;
    }
    clamp_wide(wa * wb)
}

/// Quotient of nonnegative `a` by positive `b` (Euclidean, equal to Rust's
/// truncating division on this domain).
pub open spec fn div_pos_spec(a: int, b: int) -> int
    recommends
        a >= 0,
        b > 0,
{
    a / b
}

/// Division of a nonnegative amount of pixels by a positive count.
pub fn div_pos(a: Px, b: Px) -> (r: Px)
    requires
        a >= 0,
        b > 0,
    ensures
        r as int == div_pos_spec(a as int, b as int),
{
    a / b
}

/// Truncating division of an unbounded integer by 100 (rounds toward zero).
pub open spec fn trunc_div_100(x: int) -> int {
    if x >= 0 {
        x / 100
    } else {
        -((-x) / 100)
    }
}

/// `pct` percent of `parent`, rounded toward zero and clamped into the pixel
/// range.
pub open spec fn percent_of_spec(parent: int, pct: int) -> int {
    clamp_i64(trunc_div_100(parent * pct))
}

/// `pct` percent of `parent` in pixels.
pub fn percent_of(parent: Px, pct: Px) -> (r: Px)
    ensures
        r as int == percent_of_spec(parent as int, pct as int),
{
    let wa: i128 = parent as i128;
    let wb: i128 = pct as i128;
    proof {
        assert(wa * wb <= 0x40000000000000000000000000000000int && wa * wb
            >= -0x40000000000000000000000000000000int) by (nonlinear_arith)
            requires
                -0x8000000000000000int <= wa <= 0x7fffffffffffffffint,
                -0x8000000000000000int <= wb <= 0x7fffffffffffffffint,
        ;
    }
    let p: i128 = wa * wb;
    if p >= 0 {
        clamp_wide(p / 100)
    } else {
        clamp_wide(-((-p) / 100))
    }
}

/// Half of a pixel value, rounded toward zero.
pub open spec fn half_spec(x: int) -> int {
    if x >= 0 {
        x / 2
    } else {
        -((-x) / 2)
    }
}

/// Half of a pixel value, rounded toward zero.
pub fn half(x: Px) -> (r: Px)
    ensures
        r as int == half_spec(x as int),
{
    let w: i128 = x as i128;
    if w >= 0 {
        (w / 2) as i64
    } else {
        (-((-w) / 2)) as i64
    }
}

/// The smaller of two pixel values.
pub open spec fn min_px_spec(a: int, b: int) -> int {
    if a < b { a } else { b }
}

/// The larger of two pixel values.
pub open spec fn max_px_spec(a: int, b: int) -> int {
    if a > b { a } else { b }
}

/// The smaller of two pixel values.
pub fn min_px(a: Px, b: Px) -> (r: Px)
    ensures
        r as int == min_px_spec(a as int, b as int),
{
    if a < b { a } else { b }
}

/// The larger of two pixel values.
pub fn max_px(a: Px, b: Px) -> (r: Px)
    ensures
        r as int == max_px_spec(a as int, b as int),
{
    if a > b { a } else { b }
}

} // verus!
