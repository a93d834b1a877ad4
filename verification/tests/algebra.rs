use ray_tracer::fixed::{fadd, fdiv, fmul, fsqrt, fsub, SCALE, VMAX};
use ray_tracer::ray::Ray;
use ray_tracer::vector::Vec3;

#[test]
fn fixed_arithmetic_exact_values() {
    assert_eq!(fadd(SCALE, SCALE), 2 * SCALE);
    assert_eq!(fsub(SCALE, 3 * SCALE), -2 * SCALE);
    // 1.5 * 2.0 == 3.0
    assert_eq!(fmul(150_000, 200_000), 300_000);
    // 1.0 / 3.0 truncates toward zero.
    assert_eq!(fdiv(SCALE, 3 * SCALE), 33_333);
    assert_eq!(fdiv(-SCALE, 3 * SCALE), -33_333);
    // Saturation at the stored bound.
    assert_eq!(fadd(VMAX, VMAX), VMAX);
    assert_eq!(fsub(-VMAX, VMAX), -VMAX);
}

#[test]
fn fixed_sqrt_exact_on_squares() {
    // sqrt(4.0) == 2.0, sqrt(0.25) == 0.5, negative input darkens to 0.
    assert_eq!(fsqrt(4 * SCALE), 2 * SCALE);
    assert_eq!(fsqrt(25_000), 50_000);
    assert_eq!(fsqrt(-SCALE), 0);
    assert_eq!(fsqrt(0), 0);
}

#[test]
fn vector_products() {
    let a = Vec3::new(SCALE, 2 * SCALE, 3 * SCALE);
    let b = Vec3::new(4 * SCALE, 5 * SCALE, 6 * SCALE);
    // 1*4 + 2*5 + 3*6 == 32
    assert_eq!(a.dot(b), 32 * SCALE);
    // (2*6-3*5, 3*4-1*6, 1*5-2*4) == (-3, 6, -3)
    assert_eq!(a.cross(b), Vec3::new(-3 * SCALE, 6 * SCALE, -3 * SCALE));
    assert_eq!(a.vadd(b), Vec3::new(5 * SCALE, 7 * SCALE, 9 * SCALE));
    assert_eq!(b.vsub(a), Vec3::new(3 * SCALE, 3 * SCALE, 3 * SCALE));
    assert_eq!(a.scale(2 * SCALE), Vec3::new(2 * SCALE, 4 * SCALE, 6 * SCALE));
}

#[test]
fn vector_norm_and_normalize() {
    // A 3-4-5 triangle in the x-y plane.
    let v = Vec3::new(3 * SCALE, 4 * SCALE, 0);
    assert_eq!(v.norm(), 5 * SCALE);
    let u = v.normalize();
    assert_eq!(u, Vec3::new(60_000, 80_000, 0));
}

#[test]
fn near_zero_is_exact_zero() {
    assert!(Vec3::new(0, 0, 0).near_zero());
    assert!(!Vec3::new(1, 0, 0).near_zero());
    assert!(!Vec3::new(0, 0, -1).near_zero());
}

#[test]
fn reflect_head_on_and_oblique() {
    let n = Vec3::new(0, 0, SCALE);
    // Head-on reflection reverses the direction.
    let v = Vec3::new(0, 0, -SCALE);
    assert_eq!(v.reflect(n), Vec3::new(0, 0, SCALE));
    // A 45-degree grazing ray keeps its tangential part.
    let g = Vec3::new(SCALE, 0, -SCALE);
    assert_eq!(g.reflect(n), Vec3::new(SCALE, 0, SCALE));
}

#[test]
fn refract_straight_through_at_equal_index() {
    // With a relative index of 1 a head-on ray passes straight through.
    let v = Vec3::new(0, 0, -SCALE);
    let n = Vec3::new(0, 0, SCALE);
    assert_eq!(v.refract(n, SCALE), Vec3::new(0, 0, -SCALE));
}

#[test]
fn ray_at_walks_the_parameter() {
    let r = Ray::new(Vec3::new(SCALE, 0, 0), Vec3::new(0, 0, -SCALE));
    assert_eq!(r.at(2 * SCALE), Vec3::new(SCALE, 0, -2 * SCALE));
    assert_eq!(r.origin(), Vec3::new(SCALE, 0, 0));
    assert_eq!(r.direction(), Vec3::new(0, 0, -SCALE));
}
