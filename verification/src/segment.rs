//! Line segments: the closest point on a segment and the exact squared
//! distance from a point to a segment, with the law that the distance is
//! non-negative and vanishes exactly on the segment.

use vstd::prelude::*;
use crate::point::{Point, in_range, dist2_pp};
use crate::rat::{Rat, Dist2};
use crate::scalar::{tdiv, lemma_mul_bounds, lemma_sq, lemma_tdiv_bound};

verus! {

/// The directed segment from `from` to `to`. A degenerate segment
/// (`from == to`) is allowed; distance queries collapse to point-to-point
/// distance on it.
#[derive(Clone, Copy, Debug, PartialEq, Eq, Structural)]
pub struct LineSegment {
    pub from: Point,
    pub to: Point,
}

/// The squared distance from `p` to the segment `s`, as an exact rational.
/// The projection parameter of `p` onto the carrying line is
/// `dot / len2`; clamped below 0 or above 1 the nearest endpoint decides,
/// otherwise the perpendicular squared distance is `cross^2 / len2`.
pub open spec fn seg_d2(s: LineSegment, p: Point) -> Rat {
    let dx = s.to.x - s.from.x;
    let dy = s.to.y - s.from.y;
    let wx = p.x - s.from.x;
    let wy = p.y - s.from.y;
    let len2 = dx * dx + dy * dy;
    let dotv = wx * dx + wy * dy;
    if len2 == 0 || dotv <= 0 {
        Rat { n: wx * wx + wy * wy, d: 1 }
    } else if dotv >= len2 {
        Rat { n: dist2_pp(s.to, p), d: 1 }
    } else {
        let cr = dx * wy - dy * wx;
        Rat { n: cr * cr, d: len2 }
    }
}

/// `p` lies on the segment `s`: collinear with it and between its
/// endpoints. On a degenerate segment only the shared endpoint lies on it.
pub open spec fn on_segment(s: LineSegment, p: Point) -> bool {
    if s.from == s.to {
        p == s.from
    } else {
        let dx = s.to.x - s.from.x;
        let dy = s.to.y - s.from.y;
        let wx = p.x - s.from.x;
        let wy = p.y - s.from.y;
        let len2 = dx * dx + dy * dy;
        let dotv = wx * dx + wy * dy;
        dx * wy - dy * wx == 0 && 0 <= dotv <= len2
    }
}

/// The coordinates of the closest point of `s` to `p`: the projection of
/// `p` onto the carrying line with its parameter clamped to the segment,
/// rounded toward `from` on the fixed-point grid.
pub open spec fn closest_pt_x(s: LineSegment, p: Point) -> int {
    let dx = s.to.x - s.from.x;
    let dy = s.to.y - s.from.y;
    let wx = p.x - s.from.x;
    let wy = p.y - s.from.y;
    let len2 = dx * dx + dy * dy;
    let dotv = wx * dx + wy * dy;
    if len2 == 0 || dotv <= 0 {
        s.from.x as int
    } else if dotv >= len2 {
        s.to.x as int
    } else {
        s.from.x + tdiv(dotv * dx, len2)
    }
}

pub open spec fn closest_pt_y(s: LineSegment, p: Point) -> int {
    let dx = s.to.x - s.from.x;
    let dy = s.to.y - s.from.y;
    let wx = p.x - s.from.x;
    let wy = p.y - s.from.y;
    let len2 = dx * dx + dy * dy;
    let dotv = wx * dx + wy * dy;
    if len2 == 0 || dotv <= 0 {
        s.from.y as int
    } else if dotv >= len2 {
        s.to.y as int
    } else {
        s.from.y + tdiv(dotv * dy, len2)
    }
}

/// Decomposition of a vector against a non-zero direction: its coordinates
/// times the squared length are linear in its dot and cross products with
/// the direction.
proof fn lemma_w_decompose(dx: int, dy: int, wx: int, wy: int)
    by (nonlinear_arith)
    ensures
        wx * (dx * dx + dy * dy) == dx * (wx * dx + wy * dy) - dy * (dx * wy - dy * wx),
        wy * (dx * dx + dy * dy) == dy * (wx * dx + wy * dy) + dx * (dx * wy - dy * wx),
{
}

proof fn lemma_zero_product(a: int, b: int)
    by (nonlinear_arith)
    requires
        a * b == 0,
        b >= 1,
    ensures
        a == 0,
{
}

/// A vector with zero dot and zero cross product against a non-zero
/// direction is the zero vector.
proof fn lemma_dot_cross_zero(dx: int, dy: int, wx: int, wy: int)
    requires
        dx * dx + dy * dy >= 1,
        wx * dx + wy * dy == 0,
        dx * wy - dy * wx == 0,
    ensures
        wx == 0,
        wy == 0,
{
    lemma_w_decompose(dx, dy, wx, wy);
    lemma_zero_product(wx, dx * dx + dy * dy);
    lemma_zero_product(wy, dx * dx + dy * dy);
}

/// Law: the squared distance to a segment is a well-formed non-negative
/// rational — a distance is never negative.
pub proof fn lemma_seg_d2_nonneg(s: LineSegment, p: Point)
    ensures
        seg_d2(s, p).n >= 0,
        seg_d2(s, p).d >= 1,
{
    let dx = s.to.x - s.from.x;
    let dy = s.to.y - s.from.y;
    let wx = p.x - s.from.x;
    let wy = p.y - s.from.y;
    lemma_sq(dx);
    lemma_sq(dy);
    lemma_sq(wx);
    lemma_sq(wy);
    lemma_sq(p.x - s.to.x);
    lemma_sq(p.y - s.to.y);
    lemma_sq(dx * wy - dy * wx);
}

/// Law: the squared distance to a segment vanishes exactly when the point
/// lies on the segment.
pub proof fn lemma_seg_d2_zero_iff_on_segment(s: LineSegment, p: Point)
    ensures
        seg_d2(s, p).n == 0 <==> on_segment(s, p),
{
    let dx = s.to.x - s.from.x;
    let dy = s.to.y - s.from.y;
    let wx = p.x - s.from.x;
    let wy = p.y - s.from.y;
    let len2 = dx * dx + dy * dy;
    let dotv = wx * dx + wy * dy;
    let cr = dx * wy - dy * wx;
    lemma_sq(dx);
    lemma_sq(dy);
    lemma_sq(wx);
    lemma_sq(wy);
    lemma_sq(cr);
    if len2 == 0 {
        assert(dx == 0 && dy == 0);
        assert(s.from == s.to);
        lemma_dist2_pp_via_sq(s.from, p);
    } else {
        assert(len2 >= 1);
        assert(s.from != s.to);
        if dotv <= 0 {
            lemma_dist2_pp_via_sq(s.from, p);
            if on_segment(s, p) {
                // dotv is clamped between 0 and itself, so it is 0; with a
                // zero cross product the point is the `from` endpoint.
                lemma_dot_cross_zero(dx, dy, wx, wy);
            }
            if seg_d2(s, p).n == 0 {
                assert(wx == 0 && wy == 0);
                assert(on_segment(s, p));
            }
        } else if dotv >= len2 {
            lemma_dist2_pp_via_sq(s.to, p);
            if on_segment(s, p) {
                // dotv equals len2; the offset from `to` has zero dot and
                // cross products against the direction.
                let vx = p.x - s.to.x;
                let vy = p.y - s.to.y;
                assert(vx == wx - dx && vy == wy - dy);
                assert(vx * dx + vy * dy == dotv - len2) by (nonlinear_arith)
                    requires
                        vx == wx - dx,
                        vy == wy - dy,
                        dotv == wx * dx + wy * dy,
                        len2 == dx * dx + dy * dy,
                ;
                assert(dx * vy - dy * vx == cr) by (nonlinear_arith)
                    requires
                        vx == wx - dx,
                        vy == wy - dy,
                        cr == dx * wy - dy * wx,
                ;
                lemma_dot_cross_zero(dx, dy, vx, vy);
                assert(p == s.to);
            }
            if seg_d2(s, p).n == 0 {
                assert(p == s.to);
                assert(dx * dy - dy * dx == 0);
                assert(on_segment(s, p));
            }
        } else {
            // Interior projection: the numerator is the squared cross
            // product, zero exactly on collinearity; betweenness already
            // holds from the branch condition.
        }
    }
}

/// The two-dimensional Lagrange identity: the squared length of a vector
/// times the squared length of a direction splits into the squares of
/// their dot and cross products.
proof fn lemma_lagrange(dx: int, dy: int, ux: int, uy: int)
    ensures
        (dx * dx + dy * dy) * (ux * ux + uy * uy) == (dx * ux + dy * uy) * (dx * ux + dy * uy) + (dx
            * uy - dy * ux) * (dx * uy - dy * ux),
{
    let a = dx * ux;
    let b = dy * uy;
    let c = dx * uy;
    let d = dy * ux;
    assert((a + b) * (a + b) == a * a + 2 * (a * b) + b * b) by (nonlinear_arith);
    assert((c - d) * (c - d) == c * c - 2 * (c * d) + d * d) by (nonlinear_arith);
    assert(a * b == c * d) by (nonlinear_arith)
        requires
            a == dx * ux,
            b == dy * uy,
            c == dx * uy,
            d == dy * ux,
    ;
    assert(a * a + c * c == (dx * dx) * (ux * ux + uy * uy)) by (nonlinear_arith)
        requires
            a == dx * ux,
            c == dx * uy,
    ;
    assert(b * b + d * d == (dy * dy) * (ux * ux + uy * uy)) by (nonlinear_arith)
        requires
            b == dy * uy,
            d == dy * ux,
    ;
    assert((dx * dx) * (ux * ux + uy * uy) + (dy * dy) * (ux * ux + uy * uy) == (dx * dx + dy * dy)
        * (ux * ux + uy * uy)) by (nonlinear_arith);
}

/// Expansion of the squared offset from the segment point at parameter
/// `tn / td` (scaled by `td`) into squared-length, dot and length terms.
proof fn lemma_offset_expand(wx: int, wy: int, dx: int, dy: int, tn: int, td: int)
    ensures
        (wx * td - tn * dx) * (wx * td - tn * dx) + (wy * td - tn * dy) * (wy * td - tn * dy) == (td
            * td) * (wx * wx + wy * wy) - 2 * ((td * tn) * (wx * dx + wy * dy)) + (tn * tn) * (dx
            * dx + dy * dy),
{
    let ax = wx * td;
    let bx = tn * dx;
    let ay = wy * td;
    let by = tn * dy;
    assert((ax - bx) * (ax - bx) == ax * ax - 2 * (ax * bx) + bx * bx) by (nonlinear_arith);
    assert((ay - by) * (ay - by) == ay * ay - 2 * (ay * by) + by * by) by (nonlinear_arith);
    assert(ax * ax == (td * td) * (wx * wx)) by (nonlinear_arith)
        requires
            ax == wx * td,
    ;
    assert(ay * ay == (td * td) * (wy * wy)) by (nonlinear_arith)
        requires
            ay == wy * td,
    ;
    assert(bx * bx == (tn * tn) * (dx * dx)) by (nonlinear_arith)
        requires
            bx == tn * dx,
    ;
    assert(by * by == (tn * tn) * (dy * dy)) by (nonlinear_arith)
        requires
            by == tn * dy,
    ;
    assert(ax * bx == (td * tn) * (wx * dx)) by (nonlinear_arith)
        requires
            ax == wx * td,
            bx == tn * dx,
    ;
    assert(ay * by == (td * tn) * (wy * dy)) by (nonlinear_arith)
        requires
            ay == wy * td,
            by == tn * dy,
    ;
    assert((td * td) * (wx * wx + wy * wy) == (td * td) * (wx * wx) + (td * td) * (wy * wy))
        by (nonlinear_arith);
    assert((tn * tn) * (dx * dx + dy * dy) == (tn * tn) * (dx * dx) + (tn * tn) * (dy * dy))
        by (nonlinear_arith);
    assert((td * tn) * (wx * dx + wy * dy) == (td * tn) * (wx * dx) + (td * tn) * (wy * dy))
        by (nonlinear_arith);
}

/// The sign of a product of a non-negative and a non-positive factor.
proof fn lemma_sign_facts(a: int, b: int)
    by (nonlinear_arith)
    ensures
        a >= 0 && b <= 0 ==> a * b <= 0,
        a >= 0 && b >= 0 ==> a * b >= 0,
{
}

/// Law: the stated segment distance is least among the distances to the
/// points of the segment. For any rational parameter `tn / td` between 0
/// and 1, the squared distance from `p` to the point of the segment at
/// that parameter — `(ux * ux + uy * uy) / (td * td)` in the scaled
/// offsets below — is at least `seg_d2(s, p)`, compared exactly as
/// rationals. The point the kernel returns is a genuine closest point.
pub proof fn lemma_seg_d2_is_least(s: LineSegment, p: Point, tn: int, td: int)
    requires
        0 <= tn <= td,
        1 <= td,
    ensures
        ({
            let dx = s.to.x - s.from.x;
            let dy = s.to.y - s.from.y;
            let ux = (p.x - s.from.x) * td - tn * dx;
            let uy = (p.y - s.from.y) * td - tn * dy;
            seg_d2(s, p).n * (td * td) <= (ux * ux + uy * uy) * seg_d2(s, p).d
        }),
{
    let dx = s.to.x - s.from.x;
    let dy = s.to.y - s.from.y;
    let wx = p.x - s.from.x;
    let wy = p.y - s.from.y;
    let len2 = dx * dx + dy * dy;
    let dotv = wx * dx + wy * dy;
    let cr = dx * wy - dy * wx;
    let ux = wx * td - tn * dx;
    let uy = wy * td - tn * dy;
    lemma_sq(dx);
    lemma_sq(dy);
    if len2 == 0 {
        assert(dx == 0 && dy == 0);
        assert(ux == wx * td && uy == wy * td);
        assert((wx * td) * (wx * td) == (wx * wx) * (td * td)) by (nonlinear_arith);
        assert((wy * td) * (wy * td) == (wy * wy) * (td * td)) by (nonlinear_arith);
        assert((wx * wx) * (td * td) + (wy * wy) * (td * td) == (wx * wx + wy * wy) * (td * td))
            by (nonlinear_arith);
    } else if dotv <= 0 {
        // The point projects before the segment's start: moving along the
        // direction only adds distance.
        lemma_offset_expand(wx, wy, dx, dy, tn, td);
        lemma_sign_facts(td * tn, dotv);
        assert(td * tn >= 0) by (nonlinear_arith)
            requires
                tn >= 0,
                td >= 0,
        ;
        lemma_sign_facts(tn * tn, len2);
        lemma_sq(tn);
        assert((wx * wx + wy * wy) * (td * td) == (td * td) * (wx * wx + wy * wy))
            by (nonlinear_arith);
        assert((ux * ux + uy * uy) * 1 == ux * ux + uy * uy);
    } else if dotv >= len2 {
        // The point projects past the segment's end: measure from there.
        let vx = wx - dx;
        let vy = wy - dy;
        let e = td - tn;
        assert(wx * td == vx * td + dx * td) by (nonlinear_arith)
            requires
                wx == vx + dx,
        ;
        assert(wy * td == vy * td + dy * td) by (nonlinear_arith)
            requires
                wy == vy + dy,
        ;
        assert(tn * dx == td * dx - e * dx) by (nonlinear_arith)
            requires
                tn == td - e,
        ;
        assert(tn * dy == td * dy - e * dy) by (nonlinear_arith)
            requires
                tn == td - e,
        ;
        assert(dx * td == td * dx && dy * td == td * dy) by (nonlinear_arith);
        assert(ux == vx * td - (-e) * dx) by (nonlinear_arith)
            requires
                ux == vx * td + e * dx,
        ;
        assert(uy == vy * td - (-e) * dy) by (nonlinear_arith)
            requires
                uy == vy * td + e * dy,
        ;
        lemma_offset_expand(vx, vy, dx, dy, -e, td);
        // The dot product against the end offset is non-negative, so the
        // middle term only adds distance.
        assert(vx * dx + vy * dy == dotv - len2) by (nonlinear_arith)
            requires
                vx == wx - dx,
                vy == wy - dy,
                dotv == wx * dx + wy * dy,
                len2 == dx * dx + dy * dy,
        ;
        assert(td * (-e) <= 0) by (nonlinear_arith)
            requires
                e >= 0,
                td >= 0,
        ;
        assert((td * (-e)) * (vx * dx + vy * dy) <= 0) by (nonlinear_arith)
            requires
                td * (-e) <= 0,
                vx * dx + vy * dy >= 0,
        ;
        lemma_sign_facts((-e) * (-e), len2);
        assert((-e) * (-e) >= 0) by (nonlinear_arith);
        assert(seg_d2(s, p).n == vx * vx + vy * vy);
        assert((vx * vx + vy * vy) * (td * td) == (td * td) * (vx * vx + vy * vy))
            by (nonlinear_arith);
        assert((ux * ux + uy * uy) * 1 == ux * ux + uy * uy);
    } else {
        // Interior: by the Lagrange identity the cross product is the
        // whole of the perpendicular part.
        lemma_lagrange(dx, dy, ux, uy);
        assert(dx * uy - dy * ux == td * cr) by (nonlinear_arith)
            requires
                ux == wx * td - tn * dx,
                uy == wy * td - tn * dy,
                cr == dx * wy - dy * wx,
        ;
        lemma_sq(dx * ux + dy * uy);
        assert((td * cr) * (td * cr) == (cr * cr) * (td * td)) by (nonlinear_arith);
        assert((ux * ux + uy * uy) * len2 == len2 * (ux * ux + uy * uy)) by (nonlinear_arith);
    }
}

/// Law: the stated segment distance is attained: at the clamped
/// projection parameter the squared distance to the segment point equals
/// `seg_d2` exactly. Together with `lemma_seg_d2_is_least` this makes the
/// stated distance precisely the distance to the closest point of the
/// segment.
pub proof fn lemma_seg_d2_is_attained(s: LineSegment, p: Point)
    ensures
        ({
            let dx = s.to.x - s.from.x;
            let dy = s.to.y - s.from.y;
            let wx = p.x - s.from.x;
            let wy = p.y - s.from.y;
            let len2 = dx * dx + dy * dy;
            let dotv = wx * dx + wy * dy;
            let tn = if len2 == 0 || dotv <= 0 {
                0int
            } else if dotv >= len2 {
                len2
            } else {
                dotv
            };
            let td = if len2 == 0 {
                1int
            } else {
                len2
            };
            let ux = wx * td - tn * dx;
            let uy = wy * td - tn * dy;
            0 <= tn <= td && 1 <= td && seg_d2(s, p).n * (td * td) == (ux * ux + uy * uy) * seg_d2(
                s,
                p,
            ).d
        }),
{
    let dx = s.to.x - s.from.x;
    let dy = s.to.y - s.from.y;
    let wx = p.x - s.from.x;
    let wy = p.y - s.from.y;
    let len2 = dx * dx + dy * dy;
    let dotv = wx * dx + wy * dy;
    let cr = dx * wy - dy * wx;
    lemma_sq(dx);
    lemma_sq(dy);
    if len2 == 0 {
        assert(dx == 0 && dy == 0);
    } else if dotv <= 0 {
        let ux = wx * len2;
        let uy = wy * len2;
        assert(ux * ux + uy * uy == (wx * wx + wy * wy) * (len2 * len2)) by (nonlinear_arith)
            requires
                ux == wx * len2,
                uy == wy * len2,
        ;
        assert((wx * wx + wy * wy) * (len2 * len2) == (ux * ux + uy * uy) * 1);
    } else if dotv >= len2 {
        let vx = wx - dx;
        let vy = wy - dy;
        let ux = wx * len2 - len2 * dx;
        let uy = wy * len2 - len2 * dy;
        assert(ux == vx * len2 && uy == vy * len2) by (nonlinear_arith)
            requires
                ux == wx * len2 - len2 * dx,
                uy == wy * len2 - len2 * dy,
                vx == wx - dx,
                vy == wy - dy,
        ;
        assert(ux * ux + uy * uy == (vx * vx + vy * vy) * (len2 * len2)) by (nonlinear_arith)
            requires
                ux == vx * len2,
                uy == vy * len2,
        ;
        assert(seg_d2(s, p).n == vx * vx + vy * vy);
    } else {
        let ux = wx * len2 - dotv * dx;
        let uy = wy * len2 - dotv * dy;
        lemma_lagrange(dx, dy, ux, uy);
        // At the exact projection the offset is perpendicular to the
        // direction, so only the cross term of the identity remains.
        assert(dx * ux + dy * uy == 0) by (nonlinear_arith)
            requires
                ux == wx * len2 - dotv * dx,
                uy == wy * len2 - dotv * dy,
                len2 == dx * dx + dy * dy,
                dotv == wx * dx + wy * dy,
        ;
        assert(dx * uy - dy * ux == len2 * cr) by (nonlinear_arith)
            requires
                ux == wx * len2 - dotv * dx,
                uy == wy * len2 - dotv * dy,
                len2 == dx * dx + dy * dy,
                cr == dx * wy - dy * wx,
        ;
        assert((len2 * cr) * (len2 * cr) == (cr * cr) * (len2 * len2)) by (nonlinear_arith);
        assert(len2 * (ux * ux + uy * uy) == (ux * ux + uy * uy) * len2) by (nonlinear_arith);
        assert((cr * cr) * (len2 * len2) == (cr * cr) * len2 * len2) by (nonlinear_arith);
        assert((cr * cr) * len2 * len2 == ((cr * cr) * len2) * len2) by (nonlinear_arith);
        assert((ux * ux + uy * uy) * len2 == ((cr * cr) * len2) * len2 ==> ux * ux + uy * uy == (cr
            * cr) * len2) by (nonlinear_arith)
            requires
                len2 >= 1,
        ;
        assert(ux * ux + uy * uy == (cr * cr) * len2);
        assert(seg_d2(s, p).n * (len2 * len2) == (ux * ux + uy * uy) * seg_d2(s, p).d)
            by (nonlinear_arith)
            requires
                seg_d2(s, p).n == cr * cr,
                seg_d2(s, p).d == len2,
                ux * ux + uy * uy == (cr * cr) * len2,
        ;
    }
}

proof fn lemma_dist2_pp_via_sq(p: Point, q: Point)
    ensures
        (q.x - p.x) * (q.x - p.x) + (q.y - p.y) * (q.y - p.y) == 0 <==> q == p,
        dist2_pp(p, q) >= 0,
{
    lemma_sq(q.x - p.x);
    lemma_sq(q.y - p.y);
}

impl LineSegment {
    /// The closest point to `other` on this segment: the projection of
    /// `other` onto the carrying line, its parameter clamped to the
    /// segment, rounded to the grid. On a degenerate segment: `from`.
    pub fn closest_point_to(&self, other: &Point) -> (r: Point)
        requires
            in_range(self.from),
            in_range(self.to),
            in_range(*other),
        ensures
            r.x == closest_pt_x(*self, *other),
            r.y == closest_pt_y(*self, *other),
    {
        let dx = self.to.x - self.from.x;
        let dy = self.to.y - self.from.y;
        let wx = other.x - self.from.x;
        let wy = other.y - self.from.y;
        proof {
            lemma_mul_bounds(dx as int, dx as int, 1_500_000, 1_500_000);
            lemma_mul_bounds(dy as int, dy as int, 1_500_000, 1_500_000);
            lemma_mul_bounds(wx as int, dx as int, 1_500_000, 1_500_000);
            lemma_mul_bounds(wy as int, dy as int, 1_500_000, 1_500_000);
        }
        let len2 = dx * dx + dy * dy;
        let dotv = wx * dx + wy * dy;
        if len2 == 0 || dotv <= 0 {
            Point { x: self.from.x, y: self.from.y }
        } else if dotv >= len2 {
            Point { x: self.to.x, y: self.to.y }
        } else {
            proof {
                lemma_mul_bounds(dotv as int, dx as int, len2 as int, 1_500_000);
                lemma_mul_bounds(dotv as int, dy as int, len2 as int, 1_500_000);
                assert(len2 * 1_500_000 == 1_500_000 * len2) by (nonlinear_arith);
                lemma_tdiv_bound(dotv as int * dx as int, len2 as int, 1_500_000);
                lemma_tdiv_bound(dotv as int * dy as int, len2 as int, 1_500_000);
            }
            let qx = crate::scalar::div_trunc(dotv * dx, len2);
            let qy = crate::scalar::div_trunc(dotv * dy, len2);
            Point { x: self.from.x + qx, y: self.from.y + qy }
        }
    }

    /// The exact squared distance from `other` to this segment.
    pub fn distance_sq_to(&self, other: &Point) -> (r: Dist2)
        requires
            in_range(self.from),
            in_range(self.to),
            in_range(*other),
        ensures
            r@ == seg_d2(*self, *other),
            r.wf(),
    {
        let dx = self.to.x - self.from.x;
        let dy = self.to.y - self.from.y;
        let wx = other.x - self.from.x;
        let wy = other.y - self.from.y;
        proof {
            lemma_mul_bounds(dx as int, dx as int, 1_500_000, 1_500_000);
            lemma_mul_bounds(dy as int, dy as int, 1_500_000, 1_500_000);
            lemma_mul_bounds(wx as int, dx as int, 1_500_000, 1_500_000);
            lemma_mul_bounds(wy as int, dy as int, 1_500_000, 1_500_000);
            lemma_mul_bounds(wx as int, wx as int, 1_500_000, 1_500_000);
            lemma_mul_bounds(wy as int, wy as int, 1_500_000, 1_500_000);
            lemma_sq(dx as int);
            lemma_sq(dy as int);
            lemma_sq(wx as int);
            lemma_sq(wy as int);
        }
        let len2 = dx * dx + dy * dy;
        let dotv = wx * dx + wy * dy;
        if len2 == 0 || dotv <= 0 {
            Dist2 { num: (wx as i128) * (wx as i128) + (wy as i128) * (wy as i128), den: 1 }
        } else if dotv >= len2 {
            let vx = other.x - self.to.x;
            let vy = other.y - self.to.y;
            proof {
                lemma_mul_bounds(vx as int, vx as int, 1_500_000, 1_500_000);
                lemma_mul_bounds(vy as int, vy as int, 1_500_000, 1_500_000);
                lemma_sq(vx as int);
                lemma_sq(vy as int);
            }
            Dist2 { num: (vx as i128) * (vx as i128) + (vy as i128) * (vy as i128), den: 1 }
        } else {
            proof {
                lemma_mul_bounds(dx as int, wy as int, 1_500_000, 1_500_000);
                lemma_mul_bounds(dy as int, wx as int, 1_500_000, 1_500_000);
            }
            let cr = dx * wy - dy * wx;
            proof {
                lemma_mul_bounds(cr as int, cr as int, 4_500_000_000_000, 4_500_000_000_000);
                lemma_sq(cr as int);
            }
            Dist2 { num: (cr as i128) * (cr as i128), den: len2 as i128 }
        }
    }
}

} // verus!
