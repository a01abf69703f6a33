// Placement generator tests: exact candidate construction, the
// acceptance rule, marker resolution, and a full deterministic run.

use triplace::point::Point;
use triplace::region::Region;
use triplace::rotation::Rotation;
use triplace::sampler::{candidate, rotation_sigma, Config, Draws};
use triplace::generator::Generator;

fn pt(x: i64, y: i64) -> Point {
    Point { x, y }
}

fn square_region() -> Region {
    Region::new(vec![pt(0, 0), pt(100_000, 0), pt(100_000, 100_000), pt(0, 100_000)])
}

fn identity_rotation() -> Rotation {
    Rotation::from_half_tan(0, 1)
}

fn zero_draws() -> Draws {
    Draws {
        u_width: 0,
        z_b_ver: 0,
        z_c_hor: 0,
        z_c_ver: 0,
        flip: false,
        rot: identity_rotation(),
        z_scale: 0,
        u_shift_x: 0,
        u_shift_y: 0,
        u_ps: 0,
        marker: true,
    }
}

#[test]
fn candidate_exact_flat_bottom() {
    let cfg = Config::standard();
    let d = zero_draws();
    let c = candidate(&cfg, &pt(0, 0), &pt(100_000, 100_000), &d);
    // Base 2.5 units, apex clamped up to 1.5 units, no jitter, identity
    // rotation, no shift.
    assert_eq!(c.triangle.a, pt(0, 0));
    assert_eq!(c.triangle.b, pt(2500, 0));
    assert_eq!(c.triangle.c, pt(1250, 1500));
    // Personal space: low end of the draw range, inside the clamp range.
    assert_eq!(c.personal_space, 1400);
    // Flat-bottom candidate: the marker sits above the apex.
    assert_eq!(c.marker, Some(pt(1250, 2300)));
}

#[test]
fn candidate_exact_flat_top() {
    let cfg = Config::standard();
    let mut d = zero_draws();
    d.flip = true;
    d.u_shift_x = 100_000;  // a tenth of the box: shift (10000, 0)
    let c = candidate(&cfg, &pt(0, 0), &pt(100_000, 100_000), &d);
    // Flipped: the apex hangs below the base.
    assert_eq!(c.triangle.a, pt(10_000, 0));
    assert_eq!(c.triangle.b, pt(12_500, 0));
    assert_eq!(c.triangle.c, pt(11_250, -1500));
    // Flipped: the marker sits above the midpoint of the base.
    assert_eq!(c.marker, Some(pt(11_250, 800)));
}

#[test]
fn candidate_scale_and_ps_clamps() {
    let cfg = Config::standard();
    let mut d = zero_draws();
    d.z_scale = 2000;  // scale factor 3.0
    d.u_ps = 999_999;  // top of the draw range, clamped to ps_max
    d.marker = false;
    let c = candidate(&cfg, &pt(0, 0), &pt(100_000, 100_000), &d);
    assert_eq!(c.triangle.a, pt(0, 0));
    assert_eq!(c.triangle.b, pt(7500, 0));
    assert_eq!(c.triangle.c, pt(3750, 4500));
    assert_eq!(c.personal_space, 2400);
    assert_eq!(c.marker, None);
}

#[test]
fn rotation_sigma_depends_on_flip() {
    let cfg = Config::standard();
    assert_eq!(rotation_sigma(&cfg, true), 100);
    assert_eq!(rotation_sigma(&cfg, false), 262);
}

#[test]
fn try_place_accepts_then_rejects_overlap() {
    let region = square_region();
    let cfg = Config::standard();
    let mut gen = Generator::new(region, cfg);
    let mut d = zero_draws();
    d.u_shift_x = 500_000;
    d.u_shift_y = 500_000;
    assert!(gen.try_place(&d));
    assert_eq!(gen.placements().len(), 1);
    // The same draws produce the same triangle, which overlaps itself:
    // rejected, the set unchanged.
    assert!(!gen.try_place(&d));
    assert_eq!(gen.placements().len(), 1);
}

#[test]
fn try_place_rejects_outside_region() {
    let region = square_region();
    let cfg = Config::standard();
    let mut gen = Generator::new(region, cfg);
    let mut d = zero_draws();
    // Shift to the far corner: the triangle pokes out of the region.
    d.u_shift_x = 999_999;
    d.u_shift_y = 999_999;
    assert!(!gen.try_place(&d));
    assert_eq!(gen.placements().len(), 0);
}

#[test]
fn try_place_respects_personal_space() {
    let region = square_region();
    let cfg = Config::standard();
    let mut gen = Generator::new(region, cfg);
    let mut d1 = zero_draws();
    d1.u_shift_x = 500_000;
    d1.u_shift_y = 500_000;
    assert!(gen.try_place(&d1));
    // The first base spans x in [50, 52.5]. A disjoint triangle one unit
    // to the right is inside the 1.4-unit personal space: rejected.
    let mut d2 = zero_draws();
    d2.u_shift_x = 535_000;  // base at x in [53.5, 56]: gap 1.0 < 1.4
    d2.u_shift_y = 500_000;
    assert!(!gen.try_place(&d2));
    // Two units of gap clear the 1.4-unit personal space.
    let mut d3 = zero_draws();
    d3.u_shift_x = 545_000;  // base at x in [54.5, 57]: gap 2.0 > 1.4
    d3.u_shift_y = 500_000;
    assert!(gen.try_place(&d3));
    assert_eq!(gen.placements().len(), 2);
}

#[test]
fn markers_materialized_when_clear() {
    let region = square_region();
    let cfg = Config::standard();
    let mut gen = Generator::new(region, cfg);
    let mut d = zero_draws();
    d.u_shift_x = 500_000;
    d.u_shift_y = 500_000;
    assert!(gen.try_place(&d));
    let ms = gen.markers();
    // The only marker sits above the apex, clear of the only triangle.
    assert_eq!(ms, vec![pt(51_250, 52_300)]);
    // A placement without a marker contributes nothing.
    let mut d2 = zero_draws();
    d2.marker = false;
    d2.u_shift_x = 200_000;
    d2.u_shift_y = 200_000;
    assert!(gen.try_place(&d2));
    assert_eq!(gen.markers().len(), 1);
}

// A small deterministic generator for the end-to-end scenario: a linear
// congruential stream, the same on every run.
struct Lcg(u64);

impl Lcg {
    fn next(&mut self) -> u64 {
        self.0 = self.0.wrapping_mul(6364136223846793005).wrapping_add(1442695040888963407);
        self.0 >> 11
    }

    fn unit(&mut self) -> i64 {
        (self.next() % 1_000_000) as i64
    }

    fn coin(&mut self, p_ppm: i64) -> bool {
        self.unit() < p_ppm
    }

    // A standard-normal draw in thousandths, from twelve uniforms.
    fn z(&mut self) -> i64 {
        let mut s: i64 = 0;
        for _ in 0..12 {
            s += (self.next() % 1001) as i64;
        }
        s - 6000
    }

    fn draws(&mut self, cfg: &Config) -> Draws {
        let flip = self.coin(cfg.p_flip_ppm);
        let sigma = rotation_sigma(cfg, flip);
        let theta = (self.z() * sigma) as f64 / 1_000_000.0;
        let p = ((theta / 2.0).tan() * 256.0).round() as i64;
        let p = p.clamp(-512, 512);
        Draws {
            u_width: self.unit(),
            z_b_ver: self.z(),
            z_c_hor: self.z(),
            z_c_ver: self.z(),
            flip,
            rot: Rotation::from_half_tan(p, 256),
            z_scale: self.z(),
            u_shift_x: self.unit(),
            u_shift_y: self.unit(),
            u_ps: self.unit(),
            marker: self.coin(cfg.p_marker_ppm),
        }
    }
}

fn run_scenario(seed: u64, attempts: usize) -> Generator {
    let mut rng = Lcg(seed);
    let cfg = Config::standard();
    let mut gen = Generator::new(square_region(), cfg);
    for _ in 0..attempts {
        let d = rng.draws(&cfg);
        gen.try_place(&d);
    }
    gen
}

#[test]
fn scenario_fixed_seed_run() {
    let gen = run_scenario(20_260_101, 1000);
    let items = gen.placements();
    assert!(!items.is_empty());
    let region = square_region();
    // Every member lies in the region.
    for it in items.iter() {
        assert!(region.contains_triangle(&it.triangle));
    }
    // Every pair clears the larger personal space, in both orders.
    for (i, a) in items.iter().enumerate() {
        for (j, b) in items.iter().enumerate() {
            if i != j {
                let d = a.triangle.distance_sq_to(&b.triangle);
                let r = a.personal_space.max(b.personal_space);
                assert!(d.num > (r as i128) * (r as i128) * d.den);
            }
        }
    }
    // Every materialized marker is contained in no triangle.
    for m in gen.markers().iter() {
        for it in items.iter() {
            assert!(!it.triangle.contains_point(m));
        }
    }
    // The same seed reproduces the same placements, member by member.
    let again = run_scenario(20_260_101, 1000);
    assert_eq!(items.len(), again.placements().len());
    for (a, b) in items.iter().zip(again.placements().iter()) {
        assert_eq!(a, b);
    }
    assert_eq!(gen.markers(), again.markers());
}
