//! Points of the fixed-point plane and the exact primitives on them:
//! squared point-to-point distance and the orientation (cross-product)
//! form every containment and intersection test is built from.

use vstd::prelude::*;
use crate::scalar::{COORD_MAX, lemma_mul_bounds};

verus! {

/// A point of the plane, in thousandths of a world unit.
#[derive(Clone, Copy, Debug, PartialEq, Eq, Structural)]
pub struct Point {
    pub x: i64,
    pub y: i64,
}

/// Both coordinates within the range the distance queries accept.
pub open spec fn in_range(p: Point) -> bool {
    -COORD_MAX <= p.x <= COORD_MAX && -COORD_MAX <= p.y <= COORD_MAX
}

/// A looser range that still keeps the orientation form exact on machine
/// integers; marker points may sit slightly outside the query range.
pub const LOOSE_MAX: i64 = 1_000_000_000;

pub open spec fn in_loose_range(p: Point) -> bool {
    -LOOSE_MAX <= p.x <= LOOSE_MAX && -LOOSE_MAX <= p.y <= LOOSE_MAX
}

/// Squared Euclidean distance between two points.
pub open spec fn dist2_pp(p: Point, q: Point) -> int {
    (q.x - p.x) * (q.x - p.x) + (q.y - p.y) * (q.y - p.y)
}

/// Twice the signed area of the triangle `a`, `b`, `p`: positive when `p`
/// lies strictly to the left of the directed line from `a` to `b`.
pub open spec fn orient(a: Point, b: Point, p: Point) -> int {
    (b.x - a.x) * (p.y - a.y) - (b.y - a.y) * (p.x - a.x)
}

pub fn point_in_range(p: &Point) -> (r: bool)
    ensures
        r == in_range(*p),
{
    -COORD_MAX <= p.x && p.x <= COORD_MAX && -COORD_MAX <= p.y && p.y <= COORD_MAX
}

/// The orientation form on machine integers.
pub fn orient_exec(a: &Point, b: &Point, p: &Point) -> (r: i64)
    requires
        in_loose_range(*a),
        in_loose_range(*b),
        in_loose_range(*p),
    ensures
        r == orient(*a, *b, *p),
{
    proof {
        lemma_mul_bounds(b.x - a.x, p.y - a.y, 2_000_000_000, 2_000_000_000);
        lemma_mul_bounds(b.y - a.y, p.x - a.x, 2_000_000_000, 2_000_000_000);
    }
    (b.x - a.x) * (p.y - a.y) - (b.y - a.y) * (p.x - a.x)
}

} // verus!
