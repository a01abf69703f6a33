//! Exact rigid rotations. A rotation is carried as an integer triple
//! `(c, s, m)` with `c*c + s*s == m*m`, standing for the unit complex
//! number `(c/m, s/m)`; such triples come from the half-angle
//! parametrisation, so the kernel never touches trigonometry. Applying a
//! rotation scales by `m` and divides back, rounding once per coordinate;
//! at the pre-rounding level the composition with the inverse rotation is
//! exact (the round-trip law).

use vstd::prelude::*;
use crate::point::Point;
use crate::triangle::Triangle;
use crate::scalar::{tdiv, lemma_mul_bounds, lemma_tdiv_bound};

verus! {

/// Coordinate bound under which rotation arithmetic stays exact on
/// machine integers.
pub const ROT_COORD_MAX: i64 = 100_000_000;

/// Bound on the scale of a rotation triple.
pub const ROT_SCALE_MAX: i64 = 2_000_000;

/// The first coordinate of the rotation of `(vx, vy)` by `(c, s)`, scaled
/// by the triple's scale.
pub open spec fn rot_x(c: int, s: int, vx: int, vy: int) -> int {
    c * vx - s * vy
}

/// The second coordinate of the rotation of `(vx, vy)` by `(c, s)`,
/// scaled by the triple's scale.
pub open spec fn rot_y(c: int, s: int, vx: int, vy: int) -> int {
    s * vx + c * vy
}

/// A plane rotation about the origin by the angle whose cosine and sine
/// are `c / m` and `s / m`.
#[derive(Clone, Copy, Debug, PartialEq, Eq, Structural)]
pub struct Rotation {
    pub c: i64,
    pub s: i64,
    pub m: i64,
}

impl Rotation {
    /// The triple lies on the circle of radius `m` and is small enough
    /// for exact arithmetic.
    pub open spec fn wf(self) -> bool {
        1 <= self.m <= ROT_SCALE_MAX && -self.m <= self.c <= self.m && -self.m <= self.s
            <= self.m && self.c * self.c + self.s * self.s == self.m * self.m
    }

    /// The rotation by the negated angle: composing the two recovers the
    /// original vector exactly, up to the single rounding per application.
    pub fn inverse(&self) -> (r: Rotation)
        requires
            self.wf(),
        ensures
            r.c == self.c,
            r.s == -self.s,
            r.m == self.m,
            r.wf(),
    {
        proof {
            assert((-self.s) * (-self.s) == self.s * self.s) by (nonlinear_arith);
        }
        Rotation { c: self.c, s: -self.s, m: self.m }
    }

    /// The rotation whose half-angle has tangent `p / q`. The triple
    /// `(q*q - p*p, 2*p*q, q*q + p*p)` lies exactly on a circle, so the
    /// resulting rotation is exactly rigid.
    pub fn from_half_tan(p: i64, q: i64) -> (r: Rotation)
        requires
            1 <= q <= 512,
            -2 * q <= p <= 2 * q,
        ensures
            r.c == q * q - p * p,
            r.s == 2 * p * q,
            r.m == q * q + p * p,
            r.wf(),
    {
        proof {
            lemma_mul_bounds(p as int, p as int, 1024, 1024);
            lemma_mul_bounds(q as int, q as int, 512, 512);
            lemma_mul_bounds(p as int, q as int, 1024, 512);
            crate::scalar::lemma_sq(p as int);
            crate::scalar::lemma_sq(q as int);
            assert((q * q - p * p) * (q * q - p * p) + (2 * p * q) * (2 * p * q) == (q * q + p * p)
                * (q * q + p * p)) by (nonlinear_arith);
            assert(-(q * q + p * p) <= 2 * p * q <= q * q + p * p) by (nonlinear_arith);
        }
        Rotation { c: q * q - p * p, s: 2 * p * q, m: q * q + p * p }
    }
}

/// Law: applying a rotation and then its inverse returns the original
/// vector, scaled by the square of the triple's scale — exactly, with no
/// drift beyond the one grid rounding per application.
pub proof fn lemma_rotation_round_trip(c: int, s: int, m: int, vx: int, vy: int)
    requires
        c * c + s * s == m * m,
    ensures
        rot_x(c, -s, rot_x(c, s, vx, vy), rot_y(c, s, vx, vy)) == m * m * vx,
        rot_y(c, -s, rot_x(c, s, vx, vy), rot_y(c, s, vx, vy)) == m * m * vy,
{
    let x1 = rot_x(c, s, vx, vy);
    let y1 = rot_y(c, s, vx, vy);
    assert(c * x1 - (-s) * y1 == m * m * vx) by (nonlinear_arith)
        requires
            x1 == c * vx - s * vy,
            y1 == s * vx + c * vy,
            c * c + s * s == m * m,
    ;
    assert((-s) * x1 + c * y1 == m * m * vy) by (nonlinear_arith)
        requires
            x1 == c * vx - s * vy,
            y1 == s * vx + c * vy,
            c * c + s * s == m * m,
    ;
}

/// The first coordinate of `p` rotated about `pivot`, rounded toward the
/// pivot's side of the grid.
pub open spec fn rotated_x(p: Point, pivot: Point, r: Rotation) -> int {
    pivot.x + tdiv(rot_x(r.c as int, r.s as int, p.x - pivot.x, p.y - pivot.y), r.m as int)
}

pub open spec fn rotated_y(p: Point, pivot: Point, r: Rotation) -> int {
    pivot.y + tdiv(rot_y(r.c as int, r.s as int, p.x - pivot.x, p.y - pivot.y), r.m as int)
}

/// Rotate a point rigidly about `pivot`.
pub fn rotate_point_about(p: &Point, pivot: &Point, r: &Rotation) -> (q: Point)
    requires
        r.wf(),
        -ROT_COORD_MAX <= p.x <= ROT_COORD_MAX,
        -ROT_COORD_MAX <= p.y <= ROT_COORD_MAX,
        -ROT_COORD_MAX <= pivot.x <= ROT_COORD_MAX,
        -ROT_COORD_MAX <= pivot.y <= ROT_COORD_MAX,
    ensures
        q.x == rotated_x(*p, *pivot, *r),
        q.y == rotated_y(*p, *pivot, *r),
        -5 * ROT_COORD_MAX <= q.x <= 5 * ROT_COORD_MAX,
        -5 * ROT_COORD_MAX <= q.y <= 5 * ROT_COORD_MAX,
{
    let vx = p.x - pivot.x;
    let vy = p.y - pivot.y;
    proof {
        lemma_mul_bounds(r.c as int, vx as int, ROT_SCALE_MAX as int, 200_000_000);
        lemma_mul_bounds(r.s as int, vy as int, ROT_SCALE_MAX as int, 200_000_000);
        lemma_mul_bounds(r.s as int, vx as int, ROT_SCALE_MAX as int, 200_000_000);
        lemma_mul_bounds(r.c as int, vy as int, ROT_SCALE_MAX as int, 200_000_000);
        // |c*vx - s*vy| <= m * (|vx| + |vy|), so the quotient is bounded
        // by |vx| + |vy|.
        lemma_mul_bounds(r.m as int, 400_000_000, ROT_SCALE_MAX as int, 400_000_000);
        assert(-(r.m * 400_000_000) <= r.c * vx - r.s * vy <= r.m * 400_000_000)
            by (nonlinear_arith)
            requires
                -r.m <= r.c <= r.m,
                -r.m <= r.s <= r.m,
                1 <= r.m,
                -200_000_000 <= vx <= 200_000_000,
                -200_000_000 <= vy <= 200_000_000,
        ;
        assert(-(r.m * 400_000_000) <= r.s * vx + r.c * vy <= r.m * 400_000_000)
            by (nonlinear_arith)
            requires
                -r.m <= r.c <= r.m,
                -r.m <= r.s <= r.m,
                1 <= r.m,
                -200_000_000 <= vx <= 200_000_000,
                -200_000_000 <= vy <= 200_000_000,
        ;
        assert(r.m * 400_000_000 == 400_000_000 * r.m) by (nonlinear_arith);
        lemma_tdiv_bound(r.c as int * vx as int - r.s as int * vy as int, r.m as int, 400_000_000);
        lemma_tdiv_bound(r.s as int * vx as int + r.c as int * vy as int, r.m as int, 400_000_000);
    }
    let qx = crate::scalar::div_trunc(r.c * vx - r.s * vy, r.m);
    let qy = crate::scalar::div_trunc(r.s * vx + r.c * vy, r.m);
    Point { x: pivot.x + qx, y: pivot.y + qy }
}

impl Triangle {
    /// Rigid rotation of the triangle about `anchor`: every vertex turns
    /// by the same rotation, rounded once per coordinate.
    pub fn rotate_about(&self, anchor: &Point, r: &Rotation) -> (t: Triangle)
        requires
            r.wf(),
            -ROT_COORD_MAX <= self.a.x <= ROT_COORD_MAX,
            -ROT_COORD_MAX <= self.a.y <= ROT_COORD_MAX,
            -ROT_COORD_MAX <= self.b.x <= ROT_COORD_MAX,
            -ROT_COORD_MAX <= self.b.y <= ROT_COORD_MAX,
            -ROT_COORD_MAX <= self.c.x <= ROT_COORD_MAX,
            -ROT_COORD_MAX <= self.c.y <= ROT_COORD_MAX,
            -ROT_COORD_MAX <= anchor.x <= ROT_COORD_MAX,
            -ROT_COORD_MAX <= anchor.y <= ROT_COORD_MAX,
        ensures
            t.a.x == rotated_x(self.a, *anchor, *r),
            t.a.y == rotated_y(self.a, *anchor, *r),
            t.b.x == rotated_x(self.b, *anchor, *r),
            t.b.y == rotated_y(self.b, *anchor, *r),
            t.c.x == rotated_x(self.c, *anchor, *r),
            t.c.y == rotated_y(self.c, *anchor, *r),
            -5 * ROT_COORD_MAX <= t.a.x <= 5 * ROT_COORD_MAX,
            -5 * ROT_COORD_MAX <= t.a.y <= 5 * ROT_COORD_MAX,
            -5 * ROT_COORD_MAX <= t.b.x <= 5 * ROT_COORD_MAX,
            -5 * ROT_COORD_MAX <= t.b.y <= 5 * ROT_COORD_MAX,
            -5 * ROT_COORD_MAX <= t.c.x <= 5 * ROT_COORD_MAX,
            -5 * ROT_COORD_MAX <= t.c.y <= 5 * ROT_COORD_MAX,
    {
        Triangle {
            a: rotate_point_about(&self.a, anchor, r),
            b: rotate_point_about(&self.b, anchor, r),
            c: rotate_point_about(&self.c, anchor, r),
        }
    }
}

} // verus!
