//! The placement generator: an append-only set of accepted placements
//! together with the region they must lie in. One attempt builds the
//! candidate a record of draws stands for and accepts it exactly when its
//! triangle lies in the region and it clears every accepted placement by
//! more than the larger of the two personal-space radii — the larger, not
//! the sum; that separation rule is deliberate. The pairwise-separation
//! and containment invariants hold of the whole set at every step.

use vstd::prelude::*;
use crate::point::{Point, in_loose_range};
use crate::triangle::{Triangle, tri_d2, tri_contains, tri_in_range, lemma_tri_d2_sym};
use crate::rat::{rat_gt_sq, lemma_rat_gt_sq_eq};
use crate::region::{Region, region_has_triangle, region_has_point, bb_min_spec, bb_max_spec};
use crate::sampler::{Config, Draws, Placement, candidate, candidate_spec};
use crate::scalar::{imax, PS_BOUND, max64, lemma_tdiv_magnitude};

verus! {

/// Two placements keep each other's personal space: their triangles are
/// farther apart than the larger of the two radii.
pub open spec fn separated(p: Placement, q: Placement) -> bool {
    rat_gt_sq(tri_d2(p.triangle, q.triangle), imax(p.personal_space as int, q.personal_space as int))
}

/// An accepted placement is sound for its region: the triangle lies in
/// the region (hence in coordinate range), the radius is in bounds, and
/// the marker point, if any, is close enough for exact arithmetic.
pub open spec fn placement_ok(rpts: Seq<Point>, p: Placement) -> bool {
    region_has_triangle(rpts, p.triangle) && 0 <= p.personal_space <= PS_BOUND && match p.marker {
        Some(m) => in_loose_range(m),
        None => true,
    }
}

/// Every marker of `s` at `p` is clear of every accepted triangle.
pub open spec fn marker_clear(s: Seq<Placement>, p: Point) -> bool {
    forall|k: int| 0 <= k < s.len() ==> !tri_contains(#[trigger] s[k].triangle, p)
}

/// The marker points of the first `n` placements that survive the final
/// validity pass: a marker is materialized only if no accepted triangle
/// contains it, judged against the whole final set.
pub open spec fn surviving_markers(s: Seq<Placement>, n: int) -> Seq<Point>
    decreases n,
{
    if n <= 0 {
        Seq::empty()
    } else {
        let pre = surviving_markers(s, n - 1);
        match s[n - 1].marker {
            Some(p) => if marker_clear(s, p) {
                pre.push(p)
            } else {
                pre
            },
            None => pre,
        }
    }
}

/// The generator: the region and configuration of the run, and the
/// ordered, append-only set of accepted placements.
pub struct Generator {
    pub region: Region,
    pub cfg: Config,
    pub items: Vec<Placement>,
}

/// Does the candidate clear the region and every accepted placement?
pub open spec fn accepts(region: Region, items: Seq<Placement>, cand: Placement) -> bool {
    region_has_triangle(region.pts@, cand.triangle) && forall|k: int|
        0 <= k < items.len() ==> separated(#[trigger] items[k], cand)
}

impl Generator {
    /// The run invariant: region and configuration are well-formed, every
    /// accepted placement is sound, and every pair is separated.
    pub open spec fn wf(self) -> bool {
        self.region.wf() && self.cfg.wf() && (forall|i: int|
            0 <= i < self.items@.len() ==> placement_ok(self.region.pts@, #[trigger] self.items@[i]))
            && (forall|i: int, j: int|
            0 <= i < j < self.items@.len() ==> separated(
                #[trigger] self.items@[i],
                #[trigger] self.items@[j],
            ))
    }

    /// A fresh run over a region.
    pub fn new(region: Region, cfg: Config) -> (r: Generator)
        requires
            region.wf(),
            cfg.wf(),
        ensures
            r.wf(),
            r.region == region,
            r.cfg == cfg,
            r.items@.len() == 0,
    {
        Generator { region, cfg, items: Vec::new() }
    }

    /// One placement attempt: build the candidate the draws stand for,
    /// accept it exactly when it lies in the region and clears every
    /// accepted placement, and append it on acceptance. A candidate is
    /// never partially applied.
    pub fn try_place(&mut self, d: &Draws) -> (accepted: bool)
        requires
            old(self).wf(),
            d.wf(),
        ensures
            final(self).wf(),
            final(self).region == old(self).region,
            final(self).cfg == old(self).cfg,
            ({
                let cand = candidate_spec(
                    old(self).cfg,
                    bb_min_spec(old(self).region.pts@),
                    bb_max_spec(old(self).region.pts@),
                    *d,
                );
                accepted == accepts(old(self).region, old(self).items@, cand)
                    && final(self).items@ == if accepted {
                    old(self).items@.push(cand)
                } else {
                    old(self).items@
                }
            }),
    {
        let bb = self.region.bounding_box();
        let cand = candidate(&self.cfg, &bb.0, &bb.1, d);
        if !self.region.contains_triangle(&cand.triangle) {
            return false;
        }
        let n = self.items.len();
        let mut k: usize = 0;
        while k < n
            invariant
                self.wf(),
                d.wf(),
                n == self.items@.len(),
                0 <= k <= n,
                cand == candidate_spec(
                    self.cfg,
                    bb_min_spec(self.region.pts@),
                    bb_max_spec(self.region.pts@),
                    *d,
                ),
                0 <= cand.personal_space <= PS_BOUND,
                region_has_triangle(self.region.pts@, cand.triangle),
                forall|j: int| 0 <= j < k ==> separated(#[trigger] self.items@[j], cand),
            decreases n - k,
        {
            let it = &self.items[k];
            proof {
                assert(placement_ok(self.region.pts@, self.items@[k as int]));
            }
            let dist = it.triangle.distance_sq_to(&cand.triangle);
            let r = max64(it.personal_space, cand.personal_space);
            if !dist.gt_radius(r) {
                return false;
            }
            k += 1;
        }
        proof {
            let rpts = self.region.pts@;
            // The new placement is sound: contained, radius in bounds,
            // marker within the loose range since the triangle is in
            // range and the shift is small.
            match cand.marker {
                Some(m) => {
                    assert(region_has_point(rpts, cand.triangle.a));
                    assert(region_has_point(rpts, cand.triangle.b));
                    assert(region_has_point(rpts, cand.triangle.c));
                    lemma_tdiv_magnitude(cand.triangle.a.x + cand.triangle.b.x, 2);
                    lemma_tdiv_magnitude(cand.triangle.a.y + cand.triangle.b.y, 2);
                    assert(in_loose_range(m));
                },
                None => {},
            }
            assert(placement_ok(rpts, cand));
        }
        self.items.push(cand);
        true
    }

    /// Read access to the accepted placements, in acceptance order.
    pub fn placements(&self) -> (r: &Vec<Placement>)
        ensures
            r == &self.items,
    {
        &self.items
    }

    /// The final validity pass over marker points: a marker is
    /// materialized only if it is contained in no accepted triangle,
    /// judged against the whole final set.
    pub fn markers(&self) -> (r: Vec<Point>)
        requires
            self.wf(),
        ensures
            r@ == surviving_markers(self.items@, self.items@.len() as int),
    {
        let n = self.items.len();
        let mut out: Vec<Point> = Vec::new();
        let mut i: usize = 0;
        while i < n
            invariant
                self.wf(),
                n == self.items@.len(),
                0 <= i <= n,
                out@ == surviving_markers(self.items@, i as int),
            decreases n - i,
        {
            let item = &self.items[i];
            proof {
                assert(placement_ok(self.region.pts@, self.items@[i as int]));
            }
            match item.marker {
                Some(m) => {
                    let mut clear = true;
                    let mut j: usize = 0;
                    while j < n
                        invariant
                            self.wf(),
                            n == self.items@.len(),
                            0 <= j <= n,
                            in_loose_range(m),
                            clear == (forall|k: int|
                                0 <= k < j ==> !tri_contains(#[trigger] self.items@[k].triangle, m)),
                        decreases n - j,
                    {
                        proof {
                            assert(placement_ok(self.region.pts@, self.items@[j as int]));
                            assert(region_has_point(self.region.pts@, self.items@[j as int].triangle.a));
                            assert(region_has_point(self.region.pts@, self.items@[j as int].triangle.b));
                            assert(region_has_point(self.region.pts@, self.items@[j as int].triangle.c));
                        }
                        if self.items[j].triangle.contains_point(&m) {
                            clear = false;
                        }
                        j += 1;
                    }
                    if clear {
                        out.push(m);
                    }
                },
                None => {},
            }
            i += 1;
        }
        out
    }
}

/// Separation is symmetric: the distance between the triangles is the
/// same rational value in either order, and the larger radius does not
/// depend on the order.
pub proof fn lemma_separated_sym(p: Placement, q: Placement)
    requires
        separated(p, q),
    ensures
        separated(q, p),
{
    lemma_tri_d2_sym(p.triangle, q.triangle);
    lemma_rat_gt_sq_eq(
        tri_d2(p.triangle, q.triangle),
        tri_d2(q.triangle, p.triangle),
        imax(p.personal_space as int, q.personal_space as int),
    );
}

/// Law: over any completed run, every pair of accepted placements is
/// separated by more than the larger of their personal-space radii — in
/// both orders, for the full final set.
pub proof fn law_pairwise_separation(g: Generator)
    requires
        g.wf(),
    ensures
        forall|i: int, j: int|
            0 <= i < g.items@.len() && 0 <= j < g.items@.len() && i != j ==> separated(
                #[trigger] g.items@[i],
                #[trigger] g.items@[j],
            ),
{
    assert forall|i: int, j: int|
        0 <= i < g.items@.len() && 0 <= j < g.items@.len() && i != j implies separated(
        g.items@[i],
        g.items@[j],
    ) by {
        if i < j {
        } else {
            assert(separated(g.items@[j], g.items@[i]));
            lemma_separated_sym(g.items@[j], g.items@[i]);
        }
    }
}

/// Law: every accepted placement's triangle lies in the region supplied
/// to the run.
pub proof fn law_region_containment(g: Generator)
    requires
        g.wf(),
    ensures
        forall|i: int|
            0 <= i < g.items@.len() ==> region_has_triangle(
                g.region.pts@,
                (#[trigger] g.items@[i]).triangle,
            ),
{
    assert forall|i: int| 0 <= i < g.items@.len() implies region_has_triangle(
        g.region.pts@,
        g.items@[i].triangle,
    ) by {
        assert(placement_ok(g.region.pts@, g.items@[i]));
    }
}

/// Law: every materialized marker point is contained, by the exact
/// point-in-triangle test, in no triangle of the final set.
pub proof fn law_markers_clear(s: Seq<Placement>, n: int)
    ensures
        forall|i: int|
            0 <= i < surviving_markers(s, n).len() ==> marker_clear(
                s,
                #[trigger] surviving_markers(s, n)[i],
            ),
    decreases n,
{
    if n <= 0 {
    } else {
        law_markers_clear(s, n - 1);
        let pre = surviving_markers(s, n - 1);
        assert forall|i: int| 0 <= i < surviving_markers(s, n).len() implies marker_clear(
            s,
            surviving_markers(s, n)[i],
        ) by {
            if i < pre.len() {
                assert(surviving_markers(s, n)[i] == pre[i]);
            }
        }
    }
}

} // verus!
