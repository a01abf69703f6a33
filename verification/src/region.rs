//! The permissible region: a closed polygon with an exact even-odd
//! membership test and an axis-aligned bounding box. The polygon itself is
//! supplied from outside, once per run; the kernel only reads it.

use vstd::prelude::*;
use crate::point::{Point, in_range, orient, orient_exec, point_in_range};
use crate::triangle::Triangle;
use crate::scalar::{imin, imax};

verus! {

/// Does the edge from `a` to `b` cross the horizontal ray that runs from
/// `p` toward larger first coordinates? The half-open rule (`>` against
/// both endpoints) counts a vertex on the ray's line exactly once.
pub open spec fn edge_crosses(a: Point, b: Point, p: Point) -> bool {
    ((a.y > p.y) != (b.y > p.y)) && (if b.y > a.y {
        orient(a, b, p) > 0
    } else {
        orient(a, b, p) < 0
    })
}

/// The number of polygon edges among the first `n` that cross the ray
/// from `p`; edge `i` runs from vertex `i` to vertex `i + 1`, wrapping.
pub open spec fn crossings(s: Seq<Point>, p: Point, n: int) -> int
    decreases n,
{
    if n <= 0 {
        0
    } else {
        crossings(s, p, n - 1) + (if edge_crosses(
            s[n - 1],
            s[if n == s.len() {
                0int
            } else {
                n
            }],
            p,
        ) {
            1int
        } else {
            0int
        })
    }
}

/// Membership, boundary handled by the half-open crossing rule: `p` is in
/// the region when it is in coordinate range and the ray from it crosses
/// the polygon an odd number of times.
pub open spec fn region_has_point(s: Seq<Point>, p: Point) -> bool {
    in_range(p) && crossings(s, p, s.len() as int) % 2 == 1
}

/// Vertex-only triangle containment: all three vertices are members.
/// This is intentional and an approximation: an edge between two contained
/// vertices may still bulge outside a concave region.
pub open spec fn region_has_triangle(s: Seq<Point>, t: Triangle) -> bool {
    region_has_point(s, t.a) && region_has_point(s, t.b) && region_has_point(s, t.c)
}

/// The smallest first coordinate among the first `n` vertices.
pub open spec fn min_x_upto(s: Seq<Point>, n: int) -> int
    decreases n,
{
    if n <= 1 {
        s[0].x as int
    } else {
        imin(min_x_upto(s, n - 1), s[n - 1].x as int)
    }
}

pub open spec fn max_x_upto(s: Seq<Point>, n: int) -> int
    decreases n,
{
    if n <= 1 {
        s[0].x as int
    } else {
        imax(max_x_upto(s, n - 1), s[n - 1].x as int)
    }
}

pub open spec fn min_y_upto(s: Seq<Point>, n: int) -> int
    decreases n,
{
    if n <= 1 {
        s[0].y as int
    } else {
        imin(min_y_upto(s, n - 1), s[n - 1].y as int)
    }
}

pub open spec fn max_y_upto(s: Seq<Point>, n: int) -> int
    decreases n,
{
    if n <= 1 {
        s[0].y as int
    } else {
        imax(max_y_upto(s, n - 1), s[n - 1].y as int)
    }
}

/// The lower-left corner of the polygon's bounding box.
pub open spec fn bb_min_spec(s: Seq<Point>) -> Point {
    Point { x: min_x_upto(s, s.len() as int) as i64, y: min_y_upto(s, s.len() as int) as i64 }
}

/// The upper-right corner of the polygon's bounding box.
pub open spec fn bb_max_spec(s: Seq<Point>) -> Point {
    Point { x: max_x_upto(s, s.len() as int) as i64, y: max_y_upto(s, s.len() as int) as i64 }
}

/// A closed polygonal region.
pub struct Region {
    pub pts: Vec<Point>,
}

impl Region {
    /// At least a triangle's worth of vertices, all in coordinate range.
    pub open spec fn wf(self) -> bool {
        self.pts@.len() >= 3 && forall|i: int|
            0 <= i < self.pts@.len() ==> in_range(#[trigger] self.pts@[i])
    }

    /// A region from its polygon vertices.
    pub fn new(pts: Vec<Point>) -> (r: Region)
        requires
            pts@.len() >= 3,
            forall|i: int| 0 <= i < pts@.len() ==> in_range(#[trigger] pts@[i]),
        ensures
            r.pts == pts,
            r.wf(),
    {
        Region { pts }
    }

    /// The exact even-odd membership test.
    pub fn contains_point(&self, p: &Point) -> (r: bool)
        requires
            self.wf(),
        ensures
            r == region_has_point(self.pts@, *p),
    {
        if !point_in_range(p) {
            return false;
        }
        let n = self.pts.len();
        let mut inside = false;
        let mut i: usize = 0;
        while i < n
            invariant
                self.wf(),
                n == self.pts@.len(),
                0 <= i <= n,
                in_range(*p),
                inside == (crossings(self.pts@, *p, i as int) % 2 == 1),
            decreases n - i,
        {
            let a = self.pts[i];
            let b = self.pts[if i + 1 == n {
                0
            } else {
                i + 1
            }];
            let crosses = if (a.y > p.y) != (b.y > p.y) {
                let o = orient_exec(&a, &b, p);
                if b.y > a.y {
                    o > 0
                } else {
                    o < 0
                }
            } else {
                false
            };
            if crosses {
                inside = !inside;
            }
            i += 1;
        }
        inside
    }

    /// Vertex-only containment of a triangle.
    pub fn contains_triangle(&self, t: &Triangle) -> (r: bool)
        requires
            self.wf(),
        ensures
            r == region_has_triangle(self.pts@, *t),
    {
        self.contains_point(&t.a) && self.contains_point(&t.b) && self.contains_point(&t.c)
    }

    /// The axis-aligned bounding box of the polygon, as its two corners.
    pub fn bounding_box(&self) -> (r: (Point, Point))
        requires
            self.wf(),
        ensures
            r.0 == bb_min_spec(self.pts@),
            r.1 == bb_max_spec(self.pts@),
            in_range(r.0),
            in_range(r.1),
            r.0.x <= r.1.x,
            r.0.y <= r.1.y,
    {
        let n = self.pts.len();
        let first = self.pts[0];
        let mut lox = first.x;
        let mut hix = first.x;
        let mut loy = first.y;
        let mut hiy = first.y;
        let mut i: usize = 1;
        while i < n
            invariant
                self.wf(),
                n == self.pts@.len(),
                1 <= i <= n,
                lox == min_x_upto(self.pts@, i as int),
                hix == max_x_upto(self.pts@, i as int),
                loy == min_y_upto(self.pts@, i as int),
                hiy == max_y_upto(self.pts@, i as int),
                -crate::scalar::COORD_MAX <= lox <= hix <= crate::scalar::COORD_MAX,
                -crate::scalar::COORD_MAX <= loy <= hiy <= crate::scalar::COORD_MAX,
            decreases n - i,
        {
            let q = self.pts[i];
            if q.x < lox {
                lox = q.x;
            }
            if q.x > hix {
                hix = q.x;
            }
            if q.y < loy {
                loy = q.y;
            }
            if q.y > hiy {
                hiy = q.y;
            }
            i += 1;
        }
        (Point { x: lox, y: loy }, Point { x: hix, y: hiy })
    }
}

} // verus!
