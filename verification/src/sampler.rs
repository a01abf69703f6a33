//! Candidate sampling. The random stream itself lives outside the kernel:
//! the caller draws unit-uniform values, standard-normal values (in
//! thousandths) and coin flips, and hands them over in a `Draws` record.
//! Everything that turns those raw draws into a candidate placement — the
//! canonical triangle, clamping, scaling, translation, the in-place spin
//! about the centroid, the personal-space radius and the optional marker
//! point — is computed here, exactly as stated by the `cand_*` functions.

use vstd::prelude::*;
use crate::point::{Point, in_range};
use crate::triangle::Triangle;
use crate::rotation::{Rotation, rotated_x, rotated_y};
use crate::scalar::{tdiv, imax, imin, MILLI, UNIT, Z_MAX, PS_BOUND, div_trunc, max64, min64,
    lemma_mul_bounds, lemma_tdiv_bound, lemma_tdiv_magnitude};

verus! {

/// The sampling parameters, one record per run. All lengths are in
/// thousandths of a world unit; probabilities are in parts per `UNIT`.
#[derive(Clone, Copy, Debug)]
pub struct Config {
    /// Probability that a candidate is flipped into flat-top orientation.
    pub p_flip_ppm: i64,
    /// Probability that a candidate carries a marker point.
    pub p_marker_ppm: i64,
    /// Uniform range of the horizontal offset of vertex `b`.
    pub b_hor_lo: i64,
    pub b_hor_hi: i64,
    /// Lower clamp of that offset.
    pub b_hor_min: i64,
    /// Spread of the vertical jitter of vertex `b`.
    pub b_ver_sigma: i64,
    /// Spread of the horizontal jitter of vertex `c` about the midpoint.
    pub c_hor_sigma: i64,
    /// Lower clamp of the vertical offset of vertex `c`.
    pub c_ver_min: i64,
    /// Spread of the rotation angle, in thousandths of a radian, when the
    /// candidate is flipped.
    pub rot_sigma_flip: i64,
    /// The same spread when it is not flipped.
    pub rot_sigma_noflip: i64,
    /// Uniform range the personal-space radius is drawn from.
    pub ps_lo: i64,
    pub ps_hi: i64,
    /// Clamp range of the personal-space radius.
    pub ps_min: i64,
    pub ps_max: i64,
    /// Vertical offset of a marker point from its anchor.
    pub marker_shift: i64,
}

impl Config {
    pub open spec fn wf(self) -> bool {
        1 <= self.b_hor_min <= self.b_hor_lo <= self.b_hor_hi <= 20_000
            && 0 <= self.b_ver_sigma <= 2_000
            && 0 <= self.c_hor_sigma <= 2_000
            && 1 <= self.c_ver_min <= 20_000
            && 0 <= self.rot_sigma_flip <= 2_000
            && 0 <= self.rot_sigma_noflip <= 2_000
            && 0 <= self.ps_lo <= self.ps_hi <= PS_BOUND
            && 0 <= self.ps_min <= self.ps_max <= PS_BOUND
            && 0 <= self.marker_shift <= 20_000
            && 0 <= self.p_flip_ppm <= UNIT
            && 0 <= self.p_marker_ppm <= UNIT
    }

    /// The standard parameter set: triangles two and a half to five units
    /// wide, mild jitter, about a quarter of a radian of rotation spread
    /// for flat-bottom candidates and a tenth of a radian for flat-top
    /// ones, personal space clamped to one through two and four tenths
    /// units.
    pub fn standard() -> (r: Config)
        ensures
            r.wf(),
            r.p_flip_ppm == 750_000,
            r.p_marker_ppm == 500_000,
            r.b_hor_lo == 2500,
            r.b_hor_hi == 5000,
            r.b_hor_min == 2500,
            r.b_ver_sigma == 300,
            r.c_hor_sigma == 600,
            r.c_ver_min == 1500,
            r.rot_sigma_flip == 100,
            r.rot_sigma_noflip == 262,
            r.ps_lo == 1400,
            r.ps_hi == 3800,
            r.ps_min == 1000,
            r.ps_max == 2400,
            r.marker_shift == 800,
    {
        Config {
            p_flip_ppm: 750_000,
            p_marker_ppm: 500_000,
            b_hor_lo: 2500,
            b_hor_hi: 5000,
            b_hor_min: 2500,
            b_ver_sigma: 300,
            c_hor_sigma: 600,
            c_ver_min: 1500,
            rot_sigma_flip: 100,
            rot_sigma_noflip: 262,
            ps_lo: 1400,
            ps_hi: 3800,
            ps_min: 1000,
            ps_max: 2400,
            marker_shift: 800,
        }
    }
}

/// The raw outputs of the random stream for one candidate: unit-uniform
/// draws `u_*` in `[0, UNIT)`, standard-normal draws `z_*` in thousandths
/// clamped to eight standard deviations, two coin flips, and the rotation
/// already turned into an exact triple by the caller.
pub struct Draws {
    pub u_width: i64,
    pub z_b_ver: i64,
    pub z_c_hor: i64,
    pub z_c_ver: i64,
    pub flip: bool,
    pub rot: Rotation,
    pub z_scale: i64,
    pub u_shift_x: i64,
    pub u_shift_y: i64,
    pub u_ps: i64,
    pub marker: bool,
}

impl Draws {
    pub open spec fn wf(self) -> bool {
        0 <= self.u_width < UNIT && 0 <= self.u_shift_x < UNIT && 0 <= self.u_shift_y < UNIT && 0
            <= self.u_ps < UNIT && -Z_MAX <= self.z_b_ver <= Z_MAX && -Z_MAX <= self.z_c_hor
            <= Z_MAX && -Z_MAX <= self.z_c_ver <= Z_MAX && -Z_MAX <= self.z_scale <= Z_MAX
            && self.rot.wf()
    }
}

/// The spread of the rotation draw depends on the flip outcome: flat-top
/// candidates tolerate less spin than flat-bottom ones.
pub fn rotation_sigma(cfg: &Config, flip: bool) -> (r: i64)
    ensures
        r == if flip {
            cfg.rot_sigma_flip
        } else {
            cfg.rot_sigma_noflip
        },
{
    if flip {
        cfg.rot_sigma_flip
    } else {
        cfg.rot_sigma_noflip
    }
}

/// A candidate placement: the shape, the personal-space radius it
/// enforces, and the optional marker point attached to it.
#[derive(Clone, Copy, Debug, PartialEq, Eq)]
pub struct Placement {
    pub triangle: Triangle,
    pub personal_space: i64,
    pub marker: Option<Point>,
}

/// Horizontal offset of vertex `b`: a uniform draw over the configured
/// range, clamped below.
pub open spec fn cand_bx(cfg: Config, d: Draws) -> int {
    imax(cfg.b_hor_lo + tdiv(d.u_width * (cfg.b_hor_hi - cfg.b_hor_lo), UNIT as int), cfg.b_hor_min as int)
}

/// Vertical jitter of vertex `b`: a normal draw scaled by its spread.
pub open spec fn cand_by(cfg: Config, d: Draws) -> int {
    tdiv(d.z_b_ver * cfg.b_ver_sigma, MILLI as int)
}

/// Horizontal position of vertex `c`: roughly the midpoint of the base,
/// jittered.
pub open spec fn cand_cx(cfg: Config, d: Draws) -> int {
    tdiv(cand_bx(cfg, d), 2) + tdiv(d.z_c_hor * cfg.c_hor_sigma, MILLI as int)
}

/// Magnitude of the vertical offset of vertex `c`: a normal draw whose
/// mean and spread are a quarter of the base width, clamped below.
pub open spec fn cand_vdelta(cfg: Config, d: Draws) -> int {
    imax(
        tdiv(cand_bx(cfg, d), 4) + tdiv(d.z_c_ver * tdiv(cand_bx(cfg, d), 4), MILLI as int),
        cfg.c_ver_min as int,
    )
}

/// The vertical offset of vertex `c`, signed by the flip outcome: flipped
/// candidates put the apex below the base.
pub open spec fn cand_cy(cfg: Config, d: Draws) -> int {
    if d.flip {
        -cand_vdelta(cfg, d)
    } else {
        cand_vdelta(cfg, d)
    }
}

/// The scale factor in thousandths: a normal draw about one, floored at
/// one — the shape never shrinks.
pub open spec fn cand_scale(d: Draws) -> int {
    imax(MILLI + d.z_scale, MILLI as int)
}

/// The uniform translation within the bounding box.
pub open spec fn cand_shift_x(bb_min: Point, bb_max: Point, d: Draws) -> int {
    bb_min.x + tdiv(d.u_shift_x * (bb_max.x - bb_min.x), UNIT as int)
}

pub open spec fn cand_shift_y(bb_min: Point, bb_max: Point, d: Draws) -> int {
    bb_min.y + tdiv(d.u_shift_y * (bb_max.y - bb_min.y), UNIT as int)
}

/// The canonical triangle scaled and translated into place: vertex `a` at
/// the shift, the others scaled about it.
pub open spec fn cand_placed(cfg: Config, bb_min: Point, bb_max: Point, d: Draws) -> Triangle {
    let sx = cand_shift_x(bb_min, bb_max, d);
    let sy = cand_shift_y(bb_min, bb_max, d);
    let sc = cand_scale(d);
    Triangle {
        a: Point { x: sx as i64, y: sy as i64 },
        b: Point {
            x: (tdiv(cand_bx(cfg, d) * sc, MILLI as int) + sx) as i64,
            y: (tdiv(cand_by(cfg, d) * sc, MILLI as int) + sy) as i64,
        },
        c: Point {
            x: (tdiv(cand_cx(cfg, d) * sc, MILLI as int) + sx) as i64,
            y: (tdiv(cand_cy(cfg, d) * sc, MILLI as int) + sy) as i64,
        },
    }
}

/// The pivot of the in-place spin: the centroid of the placed triangle.
pub open spec fn cand_pivot(cfg: Config, bb_min: Point, bb_max: Point, d: Draws) -> Point {
    let t = cand_placed(cfg, bb_min, bb_max, d);
    Point {
        x: tdiv(t.a.x + t.b.x + t.c.x, 3) as i64,
        y: tdiv(t.a.y + t.b.y + t.c.y, 3) as i64,
    }
}

/// The candidate triangle: the placed triangle spun about its own
/// centroid, so the rotation is a true in-place spin.
pub open spec fn cand_triangle(cfg: Config, bb_min: Point, bb_max: Point, d: Draws) -> Triangle {
    let t = cand_placed(cfg, bb_min, bb_max, d);
    let g = cand_pivot(cfg, bb_min, bb_max, d);
    Triangle {
        a: Point { x: rotated_x(t.a, g, d.rot) as i64, y: rotated_y(t.a, g, d.rot) as i64 },
        b: Point { x: rotated_x(t.b, g, d.rot) as i64, y: rotated_y(t.b, g, d.rot) as i64 },
        c: Point { x: rotated_x(t.c, g, d.rot) as i64, y: rotated_y(t.c, g, d.rot) as i64 },
    }
}

/// The personal-space radius: a uniform draw over the configured range,
/// clamped into the configured clamp range.
pub open spec fn cand_ps(cfg: Config, d: Draws) -> int {
    imin(
        cfg.ps_max as int,
        imax(cfg.ps_lo + tdiv(d.u_ps * (cfg.ps_hi - cfg.ps_lo), UNIT as int), cfg.ps_min as int),
    )
}

/// The optional marker point, anchored to the finished triangle: at the
/// midpoint of the base when flipped, at the apex otherwise, offset
/// outward by the configured shift.
pub open spec fn cand_marker(cfg: Config, t: Triangle, d: Draws) -> Option<Point> {
    if d.marker {
        if d.flip {
            Some(
                Point {
                    x: tdiv(t.a.x + t.b.x, 2) as i64,
                    y: (tdiv(t.a.y + t.b.y, 2) + cfg.marker_shift) as i64,
                },
            )
        } else {
            Some(Point { x: t.c.x, y: (t.c.y + cfg.marker_shift) as i64 })
        }
    } else {
        None
    }
}

/// The whole candidate determined by the configuration, the bounding box
/// and one record of draws.
pub open spec fn candidate_spec(cfg: Config, bb_min: Point, bb_max: Point, d: Draws) -> Placement {
    let t = cand_triangle(cfg, bb_min, bb_max, d);
    Placement {
        triangle: t,
        personal_space: cand_ps(cfg, d) as i64,
        marker: cand_marker(cfg, t, d),
    }
}

/// Build the candidate triangle: canonical shape, scale, translation, and
/// the spin about the centroid.
fn candidate_shape(cfg: &Config, bb_min: &Point, bb_max: &Point, d: &Draws) -> (t: Triangle)
    requires
        cfg.wf(),
        d.wf(),
        in_range(*bb_min),
        in_range(*bb_max),
        bb_min.x <= bb_max.x,
        bb_min.y <= bb_max.y,
    ensures
        t == cand_triangle(*cfg, *bb_min, *bb_max, *d),
        crate::triangle::tri_in_loose_range(t),
{
    proof {
        lemma_mul_bounds(d.u_width as int, (cfg.b_hor_hi - cfg.b_hor_lo) as int, UNIT as int, 20_000);
        lemma_tdiv_bound(d.u_width * (cfg.b_hor_hi - cfg.b_hor_lo), UNIT as int, 20_000);
        lemma_mul_bounds(d.z_b_ver as int, cfg.b_ver_sigma as int, Z_MAX as int, 2_000);
        lemma_tdiv_bound(d.z_b_ver * cfg.b_ver_sigma, MILLI as int, 16_000);
        lemma_mul_bounds(d.z_c_hor as int, cfg.c_hor_sigma as int, Z_MAX as int, 2_000);
        lemma_tdiv_bound(d.z_c_hor * cfg.c_hor_sigma, MILLI as int, 16_000);
    }
    let braw = cfg.b_hor_lo + div_trunc(d.u_width * (cfg.b_hor_hi - cfg.b_hor_lo), UNIT);
    let bx = max64(braw, cfg.b_hor_min);
    let by = div_trunc(d.z_b_ver * cfg.b_ver_sigma, MILLI);
    let cx = div_trunc(bx, 2) + div_trunc(d.z_c_hor * cfg.c_hor_sigma, MILLI);
    let q = div_trunc(bx, 4);
    proof {
        lemma_tdiv_magnitude(bx as int, 2);
        lemma_tdiv_magnitude(bx as int, 4);
        lemma_mul_bounds(d.z_c_ver as int, q as int, Z_MAX as int, 10_000);
        lemma_tdiv_bound(d.z_c_ver * q, MILLI as int, 80_000);
    }
    let vd = max64(q + div_trunc(d.z_c_ver * q, MILLI), cfg.c_ver_min);
    let cy = if d.flip {
        -vd
    } else {
        vd
    };
    let scale = max64(MILLI + d.z_scale, MILLI);
    proof {
        lemma_mul_bounds(d.u_shift_x as int, (bb_max.x - bb_min.x) as int, UNIT as int, (bb_max.x
            - bb_min.x) as int);
        lemma_tdiv_bound(d.u_shift_x * (bb_max.x - bb_min.x), UNIT as int, (bb_max.x
            - bb_min.x) as int);
        lemma_mul_bounds(d.u_shift_y as int, (bb_max.y - bb_min.y) as int, UNIT as int, (bb_max.y
            - bb_min.y) as int);
        lemma_tdiv_bound(d.u_shift_y * (bb_max.y - bb_min.y), UNIT as int, (bb_max.y
            - bb_min.y) as int);
    }
    let sx = bb_min.x + div_trunc(d.u_shift_x * (bb_max.x - bb_min.x), UNIT);
    let sy = bb_min.y + div_trunc(d.u_shift_y * (bb_max.y - bb_min.y), UNIT);
    proof {
        lemma_mul_bounds(bx as int, scale as int, 40_000, 9_000);
        lemma_tdiv_bound(bx * scale, MILLI as int, 360_000);
        lemma_mul_bounds(by as int, scale as int, 16_000, 9_000);
        lemma_tdiv_bound(by * scale, MILLI as int, 144_000);
        lemma_mul_bounds(cx as int, scale as int, 36_000, 9_000);
        lemma_tdiv_bound(cx * scale, MILLI as int, 324_000);
        lemma_mul_bounds(cy as int, scale as int, 90_000, 9_000);
        lemma_tdiv_bound(cy * scale, MILLI as int, 810_000);
    }
    let placed = Triangle {
        a: Point { x: sx, y: sy },
        b: Point { x: div_trunc(bx * scale, MILLI) + sx, y: div_trunc(by * scale, MILLI) + sy },
        c: Point { x: div_trunc(cx * scale, MILLI) + sx, y: div_trunc(cy * scale, MILLI) + sy },
    };
    let pivot = placed.center();
    proof {
        lemma_tdiv_bound(placed.a.x + placed.b.x + placed.c.x, 3, 1_600_000);
        lemma_tdiv_bound(placed.a.y + placed.b.y + placed.c.y, 3, 1_600_000);
    }
    placed.rotate_about(&pivot, &d.rot)
}

/// Build the candidate a record of draws stands for.
pub fn candidate(cfg: &Config, bb_min: &Point, bb_max: &Point, d: &Draws) -> (r: Placement)
    requires
        cfg.wf(),
        d.wf(),
        in_range(*bb_min),
        in_range(*bb_max),
        bb_min.x <= bb_max.x,
        bb_min.y <= bb_max.y,
    ensures
        r == candidate_spec(*cfg, *bb_min, *bb_max, *d),
        cfg.ps_min <= r.personal_space <= cfg.ps_max,
{
    let tri = candidate_shape(cfg, bb_min, bb_max, d);
    proof {
        lemma_mul_bounds(d.u_ps as int, (cfg.ps_hi - cfg.ps_lo) as int, UNIT as int, PS_BOUND as int);
        lemma_tdiv_bound(d.u_ps * (cfg.ps_hi - cfg.ps_lo), UNIT as int, PS_BOUND as int);
    }
    let ps = min64(cfg.ps_max, max64(cfg.ps_lo + div_trunc(d.u_ps * (cfg.ps_hi - cfg.ps_lo), UNIT), cfg.ps_min));
    let marker = if d.marker {
        if d.flip {
            proof {
                lemma_tdiv_magnitude(tri.a.x + tri.b.x, 2);
                lemma_tdiv_magnitude(tri.a.y + tri.b.y, 2);
            }
            Some(
                Point {
                    x: div_trunc(tri.a.x + tri.b.x, 2),
                    y: div_trunc(tri.a.y + tri.b.y, 2) + cfg.marker_shift,
                },
            )
        } else {
            Some(Point { x: tri.c.x, y: tri.c.y + cfg.marker_shift })
        }
    } else {
        None
    };
    Placement { triangle: tri, personal_space: ps, marker }
}

} // verus!
