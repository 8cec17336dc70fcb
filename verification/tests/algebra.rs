//! Vector and color algebra on the fixed-point grid.

use ray_tracing_we::color::Color;
use ray_tracing_we::fx::{Fx, SCALE};
use ray_tracing_we::point::Point;
use ray_tracing_we::ray::Ray;
use ray_tracing_we::add_color_vec;

fn pti(x: i64, y: i64, z: i64) -> Point {
    Point { x: Fx::from_int(x), y: Fx::from_int(y), z: Fx::from_int(z) }
}

fn fxr(raw: i64) -> Fx {
    Fx { raw }
}

#[test]
fn test_random() {
}

#[test]
fn operation() {
    let a = Ray::new(pti(3, 2, 1), pti(1, 1, 0), 0);
    let b = Ray::new(
        Point { x: Fx::from_int(5), y: fxr(32768), z: fxr(19660) },
        pti(2, 1, 3),
        0,
    );

    let c = a.orig.dot(b.orig);
    let d = a.orig.sub(b.orig);

    assert_ne!(c, Fx::from_int(2));
    assert_ne!(d.x, a.orig.x);

    let e = pti(2, 4, 5);
    let f = pti(1, 6, 0);

    let _g = e.cross(f);
    let h = f.dot(e);
    let _i = f.add(e);

    assert_eq!(h, Fx::from_int(26));
}

#[test]
fn cross_product_exact() {
    let e = pti(2, 4, 5);
    let f = pti(1, 6, 0);
    let g = e.cross(f);
    assert_eq!(g, pti(-30, 5, 8));
}

#[test]
fn norm_and_unit_exact() {
    let p = pti(3, 0, 0);
    assert_eq!(p.norm(), Fx::from_int(3));
    assert_eq!(p.norm_squared(), Fx::from_int(9));
    assert_eq!(p.unit(), pti(1, 0, 0));
}

#[test]
fn near_zero_only_on_zero() {
    assert!(pti(0, 0, 0).near_zero());
    assert!(!Point { x: fxr(1), y: fxr(0), z: fxr(0) }.near_zero());
}

#[test]
fn fx_saturates_instead_of_wrapping() {
    let big = fxr(i64::MAX);
    assert_eq!(big.add(big).raw, i64::MAX);
    assert_eq!(fxr(i64::MIN).sub(big).raw, i64::MIN);
    assert_eq!(fxr(SCALE).div(fxr(0)).raw, i64::MAX);
    assert_eq!(fxr(-SCALE).div(fxr(0)).raw, i64::MIN);
}

#[test]
fn fx_sqrt_exact_squares() {
    assert_eq!(Fx::from_int(9).sqrt(), Fx::from_int(3));
    assert_eq!(fxr(16384).sqrt().raw, 32768);
    assert_eq!(Fx::from_int(-4).sqrt().raw, 0);
}

#[test]
fn ray_at_walks_the_ray() {
    let r = Ray::new(pti(1, 2, 3), pti(0, 0, -1), 0);
    assert_eq!(r.at(Fx::from_int(2)), pti(1, 2, 1));
    assert_eq!(r.get_depth(), 0);
    assert_eq!(*r.dir(), pti(0, 0, -1));
    assert_eq!(*r.orig(), pti(1, 2, 3));
}

#[test]
fn gamma_write_full_white() {
    let c = Color { r: Fx::from_int(1), g: Fx::from_int(1), b: Fx::from_int(1) };
    assert_eq!(c.write(1), (255, 255, 255));
}

#[test]
fn gamma_write_black() {
    let c = Color { r: Fx::from_int(0), g: Fx::from_int(0), b: Fx::from_int(0) };
    assert_eq!(c.write(1), (0, 0, 0));
}

#[test]
fn gamma_write_quarter() {
    let q = fxr(16384);
    let c = Color { r: q, g: q, b: q };
    assert_eq!(c.write(1), (127, 127, 127));
}

#[test]
fn gamma_write_does_not_clamp_overbright_input() {
    // radiance above one is not separately clamped before quantizing: a
    // known edge of the pixel contract
    let c = Color { r: Fx::from_int(4), g: Fx::from_int(4), b: Fx::from_int(4) };
    assert_eq!(c.write(1), (510, 510, 510));
}

#[test]
fn gamma_write_averages_over_samples() {
    let c = Color { r: Fx::from_int(4), g: Fx::from_int(4), b: Fx::from_int(4) };
    assert_eq!(c.write(4), (255, 255, 255));
}

#[test]
fn color_algebra_exact() {
    let a = Color { r: fxr(32768), g: Fx::from_int(1), b: fxr(0) };
    let b = Color { r: fxr(32768), g: fxr(32768), b: Fx::from_int(2) };
    assert_eq!(a.add(b), Color { r: Fx::from_int(1), g: fxr(98304), b: Fx::from_int(2) });
    assert_eq!(a.mul(b), Color { r: fxr(16384), g: fxr(32768), b: fxr(0) });
    assert_eq!(a.scale(Fx::from_int(2)), Color { r: Fx::from_int(1), g: Fx::from_int(2), b: fxr(0) });
}

#[test]
fn color_random_in_unit_range() {
    let c = Color::random();
    assert!(0 <= c.r.raw && c.r.raw < SCALE);
    assert!(0 <= c.g.raw && c.g.raw < SCALE);
    assert!(0 <= c.b.raw && c.b.raw < SCALE);
}

#[test]
fn random_in_sphere_stays_inside() {
    let p = Point::random_in_sphere(Fx::from_int(1));
    assert!(p.norm_squared().raw < Fx::from_int(1).raw);
}

#[test]
fn random_in_circle_stays_flat() {
    let p = Point::random_in_circle(fxr(32768));
    assert_eq!(p.z.raw, 0);
}

#[test]
fn point_random_respects_range() {
    let p = Point::random(Fx::from_int(-2), Fx::from_int(2));
    for v in [p.x, p.y, p.z] {
        assert!(Fx::from_int(-2).raw <= v.raw && v.raw <= Fx::from_int(2).raw);
    }
}

#[test]
fn add_color_vec_sums_elementwise() {
    let c1 = Color { r: Fx::from_int(1), g: fxr(0), b: fxr(0) };
    let c2 = Color { r: fxr(0), g: Fx::from_int(2), b: fxr(0) };
    let c3 = Color { r: Fx::from_int(3), g: Fx::from_int(3), b: Fx::from_int(3) };
    let mut dst = vec![c1, c2];
    add_color_vec(&mut dst, vec![c3]);
    assert_eq!(dst[0], Color { r: Fx::from_int(4), g: Fx::from_int(3), b: Fx::from_int(3) });
    assert_eq!(dst[1], c2);
}

#[test]
fn aggregation_matches_single_pass() {
    let samples = [
        Color { r: Fx::from_int(1), g: fxr(100), b: fxr(7) },
        Color { r: fxr(32768), g: fxr(0), b: fxr(3) },
        Color { r: fxr(5), g: fxr(5), b: fxr(5) },
        Color { r: fxr(0), g: fxr(9), b: Fx::from_int(2) },
        Color { r: fxr(11), g: fxr(13), b: fxr(17) },
    ];
    // two workers: the first takes three samples, the second the rest
    let part_a = samples[0].add(samples[1]).add(samples[2]);
    let part_b = samples[3].add(samples[4]);
    let aggregated = Color { r: Fx { raw: 0 }, g: Fx { raw: 0 }, b: Fx { raw: 0 } }
        .add(part_a)
        .add(part_b);
    let mut single = Color { r: Fx { raw: 0 }, g: Fx { raw: 0 }, b: Fx { raw: 0 } };
    for s in samples {
        single = single.add(s);
    }
    assert_eq!(aggregated, single);
}
