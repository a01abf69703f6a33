//! Exact rational squared distances. A squared distance between integer
//! points and segments is a rational with positive denominator; comparing
//! two of them by cross-multiplication is exact, so the placement logic
//! never rounds a distance.

use vstd::prelude::*;
use crate::scalar::{NUM_MAX, DEN_MAX, PS_BOUND};

verus! {

/// The mathematical value of a squared distance: the rational `n / d`.
pub ghost struct Rat {
    pub n: int,
    pub d: int,
}

/// A well-formed squared distance: non-negative, positive denominator,
/// within the bounds the in-range coordinate grid can produce.
pub open spec fn rat_wf(r: Rat) -> bool {
    0 <= r.n <= NUM_MAX && 1 <= r.d <= DEN_MAX
}

/// `a <= b` as rationals with positive denominators.
pub open spec fn rat_le(a: Rat, b: Rat) -> bool {
    a.n * b.d <= b.n * a.d
}

/// Equality of rational values.
pub open spec fn rat_eq(a: Rat, b: Rat) -> bool {
    a.n * b.d == b.n * a.d
}

/// The smaller of two rationals; on ties, the first.
pub open spec fn rat_min(a: Rat, b: Rat) -> Rat {
    if rat_le(a, b) {
        a
    } else {
        b
    }
}

/// `a > v * v`, for an integer radius `v`: the exact form of "the distance
/// exceeds the radius".
pub open spec fn rat_gt_sq(a: Rat, v: int) -> bool {
    a.n > v * v * a.d
}

/// The minimum of two rationals does not depend on the order of its
/// arguments, as a rational value.
pub proof fn lemma_rat_min_sym(a: Rat, b: Rat)
    requires
        1 <= a.d,
        1 <= b.d,
    ensures
        rat_eq(rat_min(a, b), rat_min(b, a)),
{
}

/// Exceeding a squared radius is a property of the rational value: it
/// carries over to any equal rational.
pub proof fn lemma_rat_gt_sq_eq(a: Rat, b: Rat, v: int)
    by (nonlinear_arith)
    requires
        1 <= a.d,
        1 <= b.d,
        rat_eq(a, b),
        rat_gt_sq(a, v),
    ensures
        rat_gt_sq(b, v),
{
}

/// The minimum of two non-negative rationals is zero exactly when one of
/// them is zero.
pub proof fn lemma_rat_min_zero(a: Rat, b: Rat)
    by (nonlinear_arith)
    requires
        1 <= a.d,
        1 <= b.d,
        0 <= a.n,
        0 <= b.n,
    ensures
        rat_min(a, b).n == 0 <==> a.n == 0 || b.n == 0,
{
}

/// A computed squared distance: the exact rational `num / den`.
#[derive(Clone, Copy, Debug)]
pub struct Dist2 {
    pub num: i128,
    pub den: i128,
}

impl View for Dist2 {
    type V = Rat;

    open spec fn view(&self) -> Rat {
        Rat { n: self.num as int, d: self.den as int }
    }
}

impl Dist2 {
    /// Bounds under which every comparison below fits in `i128`.
    pub open spec fn wf(self) -> bool {
        rat_wf(self@)
    }

    /// The distance is exactly zero.
    pub fn is_zero(&self) -> (r: bool)
        ensures
            r == (self@.n == 0),
    {
        self.num == 0
    }

    /// Exact comparison of two squared distances.
    pub fn le(&self, other: &Dist2) -> (r: bool)
        requires
            self.wf(),
            other.wf(),
        ensures
            r == rat_le(self@, other@),
    {
        proof {
            crate::scalar::lemma_mul_bounds(self.num as int, other.den as int, NUM_MAX as int, DEN_MAX as int);
            crate::scalar::lemma_mul_bounds(other.num as int, self.den as int, NUM_MAX as int, DEN_MAX as int);
        }
        self.num * other.den <= other.num * self.den
    }

    /// The smaller of two squared distances; on ties, this one.
    pub fn min(self, other: Dist2) -> (r: Dist2)
        requires
            self.wf(),
            other.wf(),
        ensures
            r@ == rat_min(self@, other@),
            r.wf(),
    {
        if self.le(&other) {
            self
        } else {
            other
        }
    }

    /// Does the distance strictly exceed the radius `v`? Exact: the
    /// rational is compared against the squared radius.
    pub fn gt_radius(&self, v: i64) -> (r: bool)
        requires
            self.wf(),
            0 <= v <= PS_BOUND,
        ensures
            r == rat_gt_sq(self@, v as int),
    {
        proof {
            crate::scalar::lemma_mul_bounds(v as int, v as int, PS_BOUND as int, PS_BOUND as int);
            crate::scalar::lemma_mul_bounds(
                (v * v) as int,
                self.den as int,
                2_500_000_000 as int,
                DEN_MAX as int,
            );
        }
        self.num > (v as i128) * (v as i128) * self.den
    }
}

} // verus!
