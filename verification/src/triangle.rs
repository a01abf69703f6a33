//! Triangles: centroid, exact point containment, the standard inclusive
//! triangle-intersection test, and exact squared distances from points and
//! triangles to a triangle's boundary.
//!
//! Distance to a triangle measures distance to its three edges, not to its
//! filled interior: a point strictly inside the triangle has a positive
//! distance to the nearest edge. This is deliberate and the placement
//! logic depends on it.

use vstd::prelude::*;
use crate::point::{Point, in_range, in_loose_range, orient, orient_exec};
use crate::segment::{LineSegment, seg_d2, on_segment, lemma_seg_d2_nonneg, lemma_seg_d2_zero_iff_on_segment};
use crate::rat::{Rat, Dist2, rat_min, rat_eq, lemma_rat_min_zero, lemma_rat_min_sym};
use crate::scalar::tdiv;

verus! {

/// A triangle given by its three vertices. It may be degenerate
/// (collinear vertices); no operation assumes positive area.
#[derive(Clone, Copy, Debug, PartialEq, Eq, Structural)]
pub struct Triangle {
    pub a: Point,
    pub b: Point,
    pub c: Point,
}

pub open spec fn tri_in_range(t: Triangle) -> bool {
    in_range(t.a) && in_range(t.b) && in_range(t.c)
}

pub open spec fn tri_in_loose_range(t: Triangle) -> bool {
    in_loose_range(t.a) && in_loose_range(t.b) && in_loose_range(t.c)
}

impl Triangle {
    /// The edge from `a` to `b`.
    pub open spec fn ab(self) -> LineSegment {
        LineSegment { from: self.a, to: self.b }
    }

    /// The edge from `a` to `c`.
    pub open spec fn ac(self) -> LineSegment {
        LineSegment { from: self.a, to: self.c }
    }

    /// The edge from `b` to `c`.
    pub open spec fn bc(self) -> LineSegment {
        LineSegment { from: self.b, to: self.c }
    }
}

/// The squared distance from `p` to the boundary of `t`: the smallest of
/// the three edge distances, taking `ab` first, then `ac`, then `bc`.
pub open spec fn tri_pt_d2(t: Triangle, p: Point) -> Rat {
    rat_min(seg_d2(t.ab(), p), rat_min(seg_d2(t.ac(), p), seg_d2(t.bc(), p)))
}

/// The exact point-in-triangle test, boundary included: `p` is not on the
/// strictly negative side of one edge and the strictly positive side of
/// another, walking the vertices in order.
pub open spec fn tri_contains(t: Triangle, p: Point) -> bool {
    let d1 = orient(t.a, t.b, p);
    let d2 = orient(t.b, t.c, p);
    let d3 = orient(t.c, t.a, p);
    !((d1 < 0 || d2 < 0 || d3 < 0) && (d1 > 0 || d2 > 0 || d3 > 0))
}

/// The inclusive segment-intersection test: a strict crossing, or an
/// endpoint of either segment lying on the other. Touching counts.
pub open spec fn seg_int(s1: LineSegment, s2: LineSegment) -> bool {
    let o1 = orient(s1.from, s1.to, s2.from);
    let o2 = orient(s1.from, s1.to, s2.to);
    let o3 = orient(s2.from, s2.to, s1.from);
    let o4 = orient(s2.from, s2.to, s1.to);
    (((o1 > 0 && o2 < 0) || (o1 < 0 && o2 > 0)) && ((o3 > 0 && o4 < 0) || (o3 < 0 && o4 > 0)))
        || on_segment(s1, s2.from)
        || on_segment(s1, s2.to)
        || on_segment(s2, s1.from)
        || on_segment(s2, s1.to)
}

/// Two triangles, as filled regions, overlap or touch: some pair of edges
/// intersects, or a vertex of one lies inside the other.
pub open spec fn tri_intersect(t1: Triangle, t2: Triangle) -> bool {
    seg_int(t1.ab(), t2.ab()) || seg_int(t1.ab(), t2.ac()) || seg_int(t1.ab(), t2.bc())
        || seg_int(t1.ac(), t2.ab()) || seg_int(t1.ac(), t2.ac()) || seg_int(t1.ac(), t2.bc())
        || seg_int(t1.bc(), t2.ab()) || seg_int(t1.bc(), t2.ac()) || seg_int(t1.bc(), t2.bc())
        || tri_contains(t1, t2.a) || tri_contains(t1, t2.b) || tri_contains(t1, t2.c)
        || tri_contains(t2, t1.a) || tri_contains(t2, t1.b) || tri_contains(t2, t1.c)
}

/// The smallest distance from a vertex of `u` to the boundary of `t`.
pub open spec fn tri_verts_d2(t: Triangle, u: Triangle) -> Rat {
    rat_min(tri_pt_d2(t, u.a), rat_min(tri_pt_d2(t, u.b), tri_pt_d2(t, u.c)))
}

/// The squared distance between two triangles: zero when they intersect,
/// otherwise the smallest of the six vertex-to-boundary distances. For
/// disjoint (hence convex and separated) triangles the minimizing pair of
/// points always includes a vertex, so this is the true distance.
pub open spec fn tri_d2(t1: Triangle, t2: Triangle) -> Rat {
    if tri_intersect(t1, t2) {
        Rat { n: 0, d: 1 }
    } else {
        rat_min(tri_verts_d2(t1, t2), tri_verts_d2(t2, t1))
    }
}

/// Distance to a triangle's boundary is a well-formed non-negative
/// rational, and vanishes exactly when the point lies on some edge.
pub proof fn lemma_tri_pt_d2_zero_iff(t: Triangle, p: Point)
    ensures
        tri_pt_d2(t, p).n >= 0,
        tri_pt_d2(t, p).d >= 1,
        tri_pt_d2(t, p).n == 0 <==> on_segment(t.ab(), p) || on_segment(t.ac(), p) || on_segment(
            t.bc(),
            p,
        ),
{
    lemma_seg_d2_nonneg(t.ab(), p);
    lemma_seg_d2_nonneg(t.ac(), p);
    lemma_seg_d2_nonneg(t.bc(), p);
    lemma_rat_min_zero(seg_d2(t.ac(), p), seg_d2(t.bc(), p));
    lemma_rat_min_zero(seg_d2(t.ab(), p), rat_min(seg_d2(t.ac(), p), seg_d2(t.bc(), p)));
    lemma_seg_d2_zero_iff_on_segment(t.ab(), p);
    lemma_seg_d2_zero_iff_on_segment(t.ac(), p);
    lemma_seg_d2_zero_iff_on_segment(t.bc(), p);
}

/// The vertex-minimum distance vanishes exactly when some vertex of `u`
/// lies on the boundary of `t`.
proof fn lemma_tri_verts_d2_zero_iff(t: Triangle, u: Triangle)
    ensures
        tri_verts_d2(t, u).n >= 0,
        tri_verts_d2(t, u).d >= 1,
        tri_verts_d2(t, u).n == 0 <==> tri_pt_d2(t, u.a).n == 0 || tri_pt_d2(t, u.b).n == 0
            || tri_pt_d2(t, u.c).n == 0,
{
    lemma_tri_pt_d2_zero_iff(t, u.a);
    lemma_tri_pt_d2_zero_iff(t, u.b);
    lemma_tri_pt_d2_zero_iff(t, u.c);
    lemma_rat_min_zero(tri_pt_d2(t, u.b), tri_pt_d2(t, u.c));
    lemma_rat_min_zero(tri_pt_d2(t, u.a), rat_min(tri_pt_d2(t, u.b), tri_pt_d2(t, u.c)));
}

/// Every triangle intersects itself: its first vertex lies inside it.
pub proof fn lemma_tri_intersect_self(t: Triangle)
    ensures
        tri_intersect(t, t),
{
    assert(orient(t.a, t.b, t.a) == 0);
    assert(orient(t.c, t.a, t.a) == 0);
    assert(tri_contains(t, t.a));
}

/// Law: for all triangles, the distance between them vanishes exactly
/// when they intersect. One direction is the definition; for the other, a vanishing
/// distance puts a vertex of one triangle on an edge of the other, which
/// the intersection test reports.
pub proof fn lemma_tri_d2_zero_iff_intersect(t1: Triangle, t2: Triangle)
    ensures
        tri_d2(t1, t2).n == 0 <==> tri_intersect(t1, t2),
        tri_d2(t1, t2).n >= 0,
        tri_d2(t1, t2).d >= 1,
{
    if tri_intersect(t1, t2) {
    } else {
        lemma_tri_verts_d2_zero_iff(t1, t2);
        lemma_tri_verts_d2_zero_iff(t2, t1);
        lemma_rat_min_zero(tri_verts_d2(t1, t2), tri_verts_d2(t2, t1));
        if tri_d2(t1, t2).n == 0 {
            lemma_tri_pt_d2_zero_iff(t1, t2.a);
            lemma_tri_pt_d2_zero_iff(t1, t2.b);
            lemma_tri_pt_d2_zero_iff(t1, t2.c);
            lemma_tri_pt_d2_zero_iff(t2, t1.a);
            lemma_tri_pt_d2_zero_iff(t2, t1.b);
            lemma_tri_pt_d2_zero_iff(t2, t1.c);
            // A vertex on an edge is an endpoint of the other triangle's
            // edges, so some pair of edges intersects.
            assert(tri_intersect(t1, t2));
        }
    }
}

/// Law: for all triangles, the distance from a triangle to itself
/// vanishes.
pub proof fn lemma_tri_d2_self_zero(t: Triangle)
    ensures
        tri_d2(t, t).n == 0,
{
    lemma_tri_intersect_self(t);
}

/// The inclusive segment test does not depend on the order of the two
/// segments.
proof fn lemma_seg_int_sym(s1: LineSegment, s2: LineSegment)
    ensures
        seg_int(s1, s2) == seg_int(s2, s1),
{
}

/// Triangle intersection does not depend on the order of the triangles.
pub proof fn lemma_tri_intersect_sym(t1: Triangle, t2: Triangle)
    ensures
        tri_intersect(t1, t2) == tri_intersect(t2, t1),
{
    lemma_seg_int_sym(t1.ab(), t2.ab());
    lemma_seg_int_sym(t1.ab(), t2.ac());
    lemma_seg_int_sym(t1.ab(), t2.bc());
    lemma_seg_int_sym(t1.ac(), t2.ab());
    lemma_seg_int_sym(t1.ac(), t2.ac());
    lemma_seg_int_sym(t1.ac(), t2.bc());
    lemma_seg_int_sym(t1.bc(), t2.ab());
    lemma_seg_int_sym(t1.bc(), t2.ac());
    lemma_seg_int_sym(t1.bc(), t2.bc());
}

/// The triangle-to-triangle distance is the same rational value in either
/// order.
pub proof fn lemma_tri_d2_sym(t1: Triangle, t2: Triangle)
    ensures
        rat_eq(tri_d2(t1, t2), tri_d2(t2, t1)),
        tri_d2(t1, t2).d >= 1,
        tri_d2(t2, t1).d >= 1,
        tri_d2(t1, t2).n >= 0,
        tri_d2(t2, t1).n >= 0,
{
    lemma_tri_intersect_sym(t1, t2);
    lemma_tri_d2_zero_iff_intersect(t1, t2);
    lemma_tri_d2_zero_iff_intersect(t2, t1);
    if !tri_intersect(t1, t2) {
        lemma_tri_verts_d2_zero_iff(t1, t2);
        lemma_tri_verts_d2_zero_iff(t2, t1);
        lemma_rat_min_sym(tri_verts_d2(t1, t2), tri_verts_d2(t2, t1));
    }
}

impl Triangle {
    /// The centroid: the arithmetic mean of the three vertices, rounded
    /// toward zero on the grid.
    pub fn center(&self) -> (r: Point)
        requires
            tri_in_loose_range(*self),
        ensures
            r.x == tdiv(self.a.x + self.b.x + self.c.x, 3),
            r.y == tdiv(self.a.y + self.b.y + self.c.y, 3),
    {
        proof {
            crate::scalar::lemma_tdiv_magnitude(self.a.x + self.b.x + self.c.x, 3);
            crate::scalar::lemma_tdiv_magnitude(self.a.y + self.b.y + self.c.y, 3);
        }
        Point {
            x: crate::scalar::div_trunc(self.a.x + self.b.x + self.c.x, 3),
            y: crate::scalar::div_trunc(self.a.y + self.b.y + self.c.y, 3),
        }
    }

    /// The exact point-in-triangle test, boundary included.
    pub fn contains_point(&self, p: &Point) -> (r: bool)
        requires
            tri_in_loose_range(*self),
            in_loose_range(*p),
        ensures
            r == tri_contains(*self, *p),
    {
        let d1 = orient_exec(&self.a, &self.b, p);
        let d2 = orient_exec(&self.b, &self.c, p);
        let d3 = orient_exec(&self.c, &self.a, p);
        !((d1 < 0 || d2 < 0 || d3 < 0) && (d1 > 0 || d2 > 0 || d3 > 0))
    }

    /// The exact squared distance from `p` to this triangle's boundary.
    pub fn distance_sq_to_point(&self, p: &Point) -> (r: Dist2)
        requires
            tri_in_range(*self),
            in_range(*p),
        ensures
            r@ == tri_pt_d2(*self, *p),
            r.wf(),
    {
        let ab = LineSegment { from: self.a, to: self.b };
        let ac = LineSegment { from: self.a, to: self.c };
        let bc = LineSegment { from: self.b, to: self.c };
        let dab = ab.distance_sq_to(p);
        let dac = ac.distance_sq_to(p);
        let dbc = bc.distance_sq_to(p);
        dab.min(dac.min(dbc))
    }

    /// The inclusive triangle-intersection test: overlap or touch of the
    /// filled regions.
    pub fn intersects(&self, other: &Triangle) -> (r: bool)
        requires
            tri_in_range(*self),
            tri_in_range(*other),
        ensures
            r == tri_intersect(*self, *other),
    {
        let e1 = [self.edge_ab(), self.edge_ac(), self.edge_bc()];
        let e2 = [other.edge_ab(), other.edge_ac(), other.edge_bc()];
        (seg_int_exec(&e1[0], &e2[0]) || seg_int_exec(&e1[0], &e2[1]) || seg_int_exec(&e1[0], &e2[2])
            || seg_int_exec(&e1[1], &e2[0]) || seg_int_exec(&e1[1], &e2[1]) || seg_int_exec(&e1[1], &e2[2])
            || seg_int_exec(&e1[2], &e2[0]) || seg_int_exec(&e1[2], &e2[1]) || seg_int_exec(&e1[2], &e2[2]))
            || self.contains_point(&other.a) || self.contains_point(&other.b)
            || self.contains_point(&other.c) || other.contains_point(&self.a)
            || other.contains_point(&self.b) || other.contains_point(&self.c)
    }

    /// The exact squared distance between two triangles: zero when they
    /// intersect, otherwise the smallest vertex-to-boundary distance over
    /// both directions.
    pub fn distance_sq_to(&self, other: &Triangle) -> (r: Dist2)
        requires
            tri_in_range(*self),
            tri_in_range(*other),
        ensures
            r@ == tri_d2(*self, *other),
            r.wf(),
    {
        if self.intersects(other) {
            Dist2 { num: 0, den: 1 }
        } else {
            let d1 = self.distance_sq_to_point(&other.a).min(
                self.distance_sq_to_point(&other.b).min(self.distance_sq_to_point(&other.c)),
            );
            let d2 = other.distance_sq_to_point(&self.a).min(
                other.distance_sq_to_point(&self.b).min(other.distance_sq_to_point(&self.c)),
            );
            d1.min(d2)
        }
    }

    fn edge_ab(&self) -> (r: LineSegment)
        ensures
            r == self.ab(),
    {
        LineSegment { from: self.a, to: self.b }
    }

    fn edge_ac(&self) -> (r: LineSegment)
        ensures
            r == self.ac(),
    {
        LineSegment { from: self.a, to: self.c }
    }

    fn edge_bc(&self) -> (r: LineSegment)
        ensures
            r == self.bc(),
    {
        LineSegment { from: self.b, to: self.c }
    }
}

/// Does `p` lie on the segment `s`?
fn on_segment_exec(s: &LineSegment, p: &Point) -> (r: bool)
    requires
        in_range(s.from),
        in_range(s.to),
        in_range(*p),
    ensures
        r == on_segment(*s, *p),
{
    if s.from.x == s.to.x && s.from.y == s.to.y {
        p.x == s.from.x && p.y == s.from.y
    } else {
        let dx = s.to.x - s.from.x;
        let dy = s.to.y - s.from.y;
        let wx = p.x - s.from.x;
        let wy = p.y - s.from.y;
        proof {
            crate::scalar::lemma_mul_bounds(dx as int, dx as int, 1_500_000, 1_500_000);
            crate::scalar::lemma_mul_bounds(dy as int, dy as int, 1_500_000, 1_500_000);
            crate::scalar::lemma_mul_bounds(wx as int, dx as int, 1_500_000, 1_500_000);
            crate::scalar::lemma_mul_bounds(wy as int, dy as int, 1_500_000, 1_500_000);
            crate::scalar::lemma_mul_bounds(dx as int, wy as int, 1_500_000, 1_500_000);
            crate::scalar::lemma_mul_bounds(dy as int, wx as int, 1_500_000, 1_500_000);
        }
        let len2 = dx * dx + dy * dy;
        let dotv = wx * dx + wy * dy;
        let cr = dx * wy - dy * wx;
        cr == 0 && 0 <= dotv && dotv <= len2
    }
}

/// The inclusive segment-intersection test on machine integers.
fn seg_int_exec(s1: &LineSegment, s2: &LineSegment) -> (r: bool)
    requires
        in_range(s1.from),
        in_range(s1.to),
        in_range(s2.from),
        in_range(s2.to),
    ensures
        r == seg_int(*s1, *s2),
{
    let o1 = orient_exec(&s1.from, &s1.to, &s2.from);
    let o2 = orient_exec(&s1.from, &s1.to, &s2.to);
    let o3 = orient_exec(&s2.from, &s2.to, &s1.from);
    let o4 = orient_exec(&s2.from, &s2.to, &s1.to);
    (((o1 > 0 && o2 < 0) || (o1 < 0 && o2 > 0)) && ((o3 > 0 && o4 < 0) || (o3 < 0 && o4 > 0)))
        || on_segment_exec(s1, &s2.from)
        || on_segment_exec(s1, &s2.to)
        || on_segment_exec(s2, &s1.from)
        || on_segment_exec(s2, &s1.to)
}

} // verus!
