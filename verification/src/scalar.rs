//! Fixed-point scalar arithmetic: the shared constants of the coordinate
//! grid, truncating division, and the small arithmetic lemmas the rest of
//! the kernel builds on.

use vstd::prelude::*;

verus! {

/// Coordinates are thousandths of a world unit.
pub const MILLI: i64 = 1000;

/// Greatest coordinate magnitude the distance and containment queries
/// accept; chosen so that every intermediate product of the exact rational
/// distance comparisons fits in `i128`.
pub const COORD_MAX: i64 = 750_000;

/// Scale of a unit-interval random draw: a draw `u` stands for `u / UNIT`.
pub const UNIT: i64 = 1_000_000;

/// Largest magnitude accepted for a standard-normal draw, in thousandths
/// (eight standard deviations).
pub const Z_MAX: i64 = 8000;

/// Largest coordinate difference between two in-range points.
pub const DIFF_MAX: i64 = 1_500_000;

/// Bound on a cross or dot product of two in-range coordinate differences:
/// twice the square of `DIFF_MAX`.
pub const CROSS_MAX: i64 = 4_500_000_000_000;

/// Bound on the numerator of a rational squared distance: the square of
/// `CROSS_MAX`.
pub const NUM_MAX: i128 = 20_250_000_000_000_000_000_000_000;

/// Bound on the denominator of a rational squared distance.
pub const DEN_MAX: i128 = 4_500_000_000_000;

/// Bound on a personal-space radius, so that comparing a rational squared
/// distance against a squared radius cannot overflow.
pub const PS_BOUND: i64 = 50_000;

/// Truncating (round-toward-zero) division: the rounding rule of Rust's
/// `/` on signed integers, stated over mathematical integers.
pub open spec fn tdiv(a: int, b: int) -> int {
    if a >= 0 {
        a / b
    } else {
        -((-a) / b)
    }
}

/// The larger of two integers.
pub open spec fn imax(a: int, b: int) -> int {
    if a >= b {
        a
    } else {
        b
    }
}

/// The smaller of two integers.
pub open spec fn imin(a: int, b: int) -> int {
    if a <= b {
        a
    } else {
        b
    }
}

/// A product of bounded factors is bounded.
pub proof fn lemma_mul_bounds(a: int, b: int, aa: int, bb: int)
    by (nonlinear_arith)
    requires
        -aa <= a <= aa,
        -bb <= b <= bb,
    ensures
        -(aa * bb) <= a * b <= aa * bb,
{
}

/// A square is non-negative, and zero exactly on zero.
pub proof fn lemma_sq(a: int)
    by (nonlinear_arith)
    ensures
        a * a >= 0,
        a * a == 0 <==> a == 0,
{
}

/// Division of a non-negative value by a positive one stays between zero
/// and the dividend.
pub proof fn lemma_div_pos_bounds(a: int, b: int)
    by (nonlinear_arith)
    requires
        a >= 0,
        b >= 1,
    ensures
        0 <= a / b <= a,
{
}

/// If `a` is at most `k` multiples of `b`, its quotient is at most `k`.
pub proof fn lemma_div_at_most(a: int, b: int, k: int)
    by (nonlinear_arith)
    requires
        0 <= a <= k * b,
        b >= 1,
    ensures
        a / b <= k,
{
}

/// Truncating division keeps every bound of the shape `|a| <= k * b`.
pub proof fn lemma_tdiv_bound(a: int, b: int, k: int)
    requires
        b >= 1,
        k >= 0,
        -(k * b) <= a <= k * b,
    ensures
        -k <= tdiv(a, b) <= k,
{
    if a >= 0 {
        lemma_div_pos_bounds(a, b);
        lemma_div_at_most(a, b, k);
    } else {
        lemma_div_pos_bounds(-a, b);
        lemma_div_at_most(-a, b, k);
    }
}

/// Truncating division by a positive divisor never grows the magnitude.
pub proof fn lemma_tdiv_magnitude(a: int, b: int)
    requires
        b >= 1,
    ensures
        a >= 0 ==> 0 <= tdiv(a, b) <= a,
        a < 0 ==> a <= tdiv(a, b) <= 0,
{
    if a >= 0 {
        lemma_div_pos_bounds(a, b);
    } else {
        lemma_div_pos_bounds(-a, b);
    }
}

/// Truncating division on machine integers, proved against `tdiv`.
pub fn div_trunc(a: i64, b: i64) -> (r: i64)
    requires
        1 <= b,
    ensures
        r == tdiv(a as int, b as int),
{
    proof {
        lemma_tdiv_magnitude(a as int, b as int);
    }
    a / b
}

/// The larger of two machine integers.
pub fn max64(a: i64, b: i64) -> (r: i64)
    ensures
        r == imax(a as int, b as int),
{
    if a >= b {
        a
    } else {
        b
    }
}

/// The smaller of two machine integers.
pub fn min64(a: i64, b: i64) -> (r: i64)
    ensures
        r == imin(a as int, b as int),
{
    if a <= b {
        a
    } else {
        b
    }
}

} // verus!
