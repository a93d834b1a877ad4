use ray_tracer::fixed::{INF, SCALE};
use ray_tracer::hittable::{HittableList, Sphere};
use ray_tracer::interval::Interval;
use ray_tracer::material::{Lambertian, Material};
use ray_tracer::ray::Ray;
use ray_tracer::vector::Vec3;

fn gray() -> Material {
    Material::Lambertian(Lambertian::new(Vec3::new(50_000, 50_000, 50_000)))
}

#[test]
fn head_on_hit_has_exact_parameter_and_normal() {
    // A unit ray along -z aimed at a sphere centered 2.0 away with radius
    // 0.5 hits at t = distance - radius = 1.5, on the front face, with the
    // normal pointing back along +z toward the origin.
    let sphere = Sphere::new(Vec3::new(0, 0, -2 * SCALE), SCALE / 2, gray());
    let ray = Ray::new(Vec3::new(0, 0, 0), Vec3::new(0, 0, -SCALE));
    let hit = sphere.hit(&ray, Interval::new(1_000, INF)).expect("must hit");
    assert_eq!(hit.t(), 3 * SCALE / 2);
    assert!(hit.front_face());
    assert_eq!(hit.normal(), Vec3::new(0, 0, SCALE));
    assert_eq!(hit.point(), Vec3::new(0, 0, -3 * SCALE / 2));
}

#[test]
fn tangent_ray_hits_with_zero_discriminant_root() {
    // Perpendicular distance from the line to the center equals the
    // radius: the single (double) root lies at the closest approach.
    let sphere = Sphere::new(Vec3::new(SCALE / 2, 0, -2 * SCALE), SCALE / 2, gray());
    let ray = Ray::new(Vec3::new(0, 0, 0), Vec3::new(0, 0, -SCALE));
    let hit = sphere.hit(&ray, Interval::new(1_000, INF)).expect("tangent must hit");
    assert_eq!(hit.t(), 2 * SCALE);
}

#[test]
fn ray_beyond_tangent_misses() {
    // One grid step farther than the radius: negative discriminant, miss.
    let sphere = Sphere::new(Vec3::new(SCALE / 2 + 1, 0, -2 * SCALE), SCALE / 2, gray());
    let ray = Ray::new(Vec3::new(0, 0, 0), Vec3::new(0, 0, -SCALE));
    assert!(sphere.hit(&ray, Interval::new(1_000, INF)).is_none());
}

#[test]
fn list_returns_nearest_of_two_overlapping_spheres() {
    // Two spheres along one ray: the scan returns the smaller t, in either
    // insertion order.
    let far = Sphere::new(Vec3::new(0, 0, -3 * SCALE), SCALE / 2, gray());
    let near = Sphere::new(Vec3::new(0, 0, -2 * SCALE), SCALE / 2, gray());
    let ray = Ray::new(Vec3::new(0, 0, 0), Vec3::new(0, 0, -SCALE));
    let time = Interval::new(1_000, INF);

    let world_a = HittableList::new(vec![far, near]);
    let hit_a = world_a.hit(&ray, time).expect("must hit");
    assert_eq!(hit_a.t(), 3 * SCALE / 2);

    let world_b = HittableList::new(vec![near, far]);
    let hit_b = world_b.hit(&ray, time).expect("must hit");
    assert_eq!(hit_b.t(), 3 * SCALE / 2);
}

#[test]
fn list_misses_when_every_sphere_misses() {
    let s = Sphere::new(Vec3::new(0, 0, -2 * SCALE), SCALE / 2, gray());
    let world = HittableList::new(vec![s]);
    let ray = Ray::new(Vec3::new(0, 0, 0), Vec3::new(0, 0, SCALE));
    assert!(world.hit(&ray, Interval::new(1_000, INF)).is_none());
}

#[test]
fn shrinking_interval_excludes_hits_at_or_beyond_max() {
    // Exclusive bounds: a root exactly at the interval edge is rejected.
    let s = Sphere::new(Vec3::new(0, 0, -2 * SCALE), SCALE / 2, gray());
    let ray = Ray::new(Vec3::new(0, 0, 0), Vec3::new(0, 0, -SCALE));
    // Near root at 1.5, far root at 2.5; cap at 1.5 rejects the near root
    // but the far root is beyond it too.
    assert!(s.hit(&ray, Interval::new(1_000, 3 * SCALE / 2)).is_none());
    // A cap between the roots accepts only the far root.
    let hit = s.hit(&ray, Interval::new(2 * SCALE, 3 * SCALE)).expect("far root");
    assert_eq!(hit.t(), 5 * SCALE / 2);
    assert!(!hit.front_face());
}

#[test]
fn interval_operations() {
    let iv = Interval::new(-SCALE, SCALE);
    assert!(iv.contains(SCALE));
    assert!(iv.contains(-SCALE));
    assert!(!iv.surrounds(SCALE));
    assert!(iv.surrounds(0));
    assert_eq!(iv.size(), 2 * SCALE);
    assert_eq!(iv.clamps(2 * SCALE), SCALE);
    assert_eq!(iv.clamps(-2 * SCALE), -SCALE);
    assert_eq!(iv.clamps(42), 42);
    let e = Interval::empty();
    assert!(!e.contains(0));
    let u = Interval::universe();
    assert!(u.contains(0));
}

#[test]
fn list_push_and_len() {
    let mut world = HittableList::new(Vec::new());
    assert_eq!(world.len(), 0);
    world.push(Sphere::new(Vec3::new(0, 0, -2 * SCALE), SCALE / 2, gray()));
    assert_eq!(world.len(), 1);
}
