use ray_tracer::camera::Camera;
use ray_tracer::distribution::{UniformOffset2D, UniformUnitVec3D, UniformVec3D};
use ray_tracer::fixed::{INF, SCALE};
use ray_tracer::hittable::{HittableList, Sphere};
use ray_tracer::interval::Interval;
use ray_tracer::material::{Lambertian, Material};
use ray_tracer::ray::Ray;
use ray_tracer::vector::Vec3;

fn gray() -> Material {
    Material::Lambertian(Lambertian::new(Vec3::new(50_000, 50_000, 50_000)))
}

fn simple_camera(samples: i64, depth: i64) -> Camera {
    Camera::new(
        4,                            // image width
        SCALE,                        // aspect ratio 1.0 -> height 4
        SCALE,                        // tan of half the vertical fov: 90 degrees
        Vec3::new(0, 0, 0),           // look from
        Vec3::new(0, 0, -SCALE),      // look at
        Vec3::new(0, SCALE, 0),       // up
        0,                            // defocus disabled
        SCALE,                        // focus distance 1.0
        samples,
        depth,
    )
}

fn two_sphere_scene() -> HittableList {
    // One ground sphere (0, -100.5, -1) radius 100 and one small sphere
    // (0, 0, -1) radius 0.5.
    let ground = Sphere::new(
        Vec3::new(0, -100 * SCALE - SCALE / 2, -SCALE),
        100 * SCALE,
        gray(),
    );
    let small = Sphere::new(Vec3::new(0, 0, -SCALE), SCALE / 2, gray());
    HittableList::new(vec![ground, small])
}

#[test]
fn camera_height_floors_at_one() {
    let c = Camera::new(
        4,
        3 * SCALE,
        SCALE,
        Vec3::new(0, 0, 0),
        Vec3::new(0, 0, -SCALE),
        Vec3::new(0, SCALE, 0),
        0,
        SCALE,
        1,
        1,
    );
    assert_eq!(c.image_height, 1);
    let d = simple_camera(1, 1);
    assert_eq!(d.image_height, 4);
    assert_eq!(d.camera_center, Vec3::new(0, 0, 0));
}

#[test]
fn ray_origin_is_always_the_camera_center() {
    // Even with depth-of-field enabled, the stored origin is the
    // undisplaced camera center; the defocus offset lives in the direction.
    let c = Camera::new(
        4,
        SCALE,
        SCALE,
        Vec3::new(0, 0, 0),
        Vec3::new(0, 0, -SCALE),
        Vec3::new(0, SCALE, 0),
        10_000,
        SCALE,
        1,
        1,
    );
    for _ in 0..8 {
        let r = c.get_ray(1, 2, (0, 0));
        assert_eq!(r.origin(), c.camera_center);
    }
    let plain = simple_camera(1, 1);
    let r = plain.get_ray(0, 0, (0, 0));
    assert_eq!(r.origin(), plain.camera_center);
}

#[test]
fn sky_is_a_function_of_direction_only() {
    // Same direction, different origins: identical sky color.
    let a = Ray::new(Vec3::new(0, 0, 0), Vec3::new(30_000, 40_000, 0));
    let b = Ray::new(Vec3::new(7 * SCALE, -3 * SCALE, SCALE), Vec3::new(30_000, 40_000, 0));
    assert_eq!(Camera::sky_box(&a), Camera::sky_box(&b));
    // Straight up is the zenith color, a level ray is the halfway blend.
    let up = Ray::new(Vec3::new(0, 0, 0), Vec3::new(0, SCALE, 0));
    assert_eq!(Camera::sky_box(&up), Vec3::new(50_000, 70_000, 100_000));
    let level = Ray::new(Vec3::new(0, 0, 0), Vec3::new(0, 0, -SCALE));
    assert_eq!(Camera::sky_box(&level), Vec3::new(75_000, 85_000, 100_000));
}

#[test]
fn depth_zero_estimate_is_black() {
    let world = two_sphere_scene();
    let ray = Ray::new(Vec3::new(0, 0, 0), Vec3::new(0, 0, -SCALE));
    let c = Camera::test_colorizer(&ray, &world, Interval::new(1_000, INF), 0);
    assert_eq!(c, Vec3::new(0, 0, 0));
}

#[test]
fn depth_zero_render_is_all_black() {
    let world = two_sphere_scene();
    let cam = simple_camera(2, 0);
    let pixels = cam.render(&world, Interval::new(1_000, INF));
    assert_eq!(pixels.len(), 16);
    for px in pixels {
        assert_eq!(px, (0, 0, 0));
    }
}

#[test]
fn depth_one_is_black_on_hit_and_sky_on_miss() {
    let world = two_sphere_scene();
    let time = Interval::new(1_000, INF);
    // Straight at the small sphere: the single bounce gathers nothing.
    let hit_ray = Ray::new(Vec3::new(0, 0, 0), Vec3::new(0, 0, -SCALE));
    assert_eq!(Camera::test_colorizer(&hit_ray, &world, time, 1), Vec3::new(0, 0, 0));
    // Straight up misses everything: exactly the sky gradient.
    let miss_ray = Ray::new(Vec3::new(0, 0, 0), Vec3::new(0, SCALE, 0));
    let c = Camera::test_colorizer(&miss_ray, &world, time, 1);
    assert_eq!(c, Camera::sky_box(&miss_ray));
    assert_eq!(c, Vec3::new(50_000, 70_000, 100_000));
}

#[test]
fn depth_one_render_shows_black_or_sky() {
    // End to end at depth one with one sample per pixel: every sample is
    // either black (something was hit) or the sky gradient.  The sky's
    // blue channel is always exactly 1.0, which quantizes to byte 255, so
    // every rendered pixel is pure black or carries a saturated blue byte.
    let world = two_sphere_scene();
    let cam = simple_camera(1, 1);
    let pixels = cam.render(&world, Interval::new(1_000, INF));
    assert_eq!(pixels.len(), 16);
    for px in pixels {
        assert!(px == (0, 0, 0) || px.2 == 255);
    }
}

#[test]
fn estimates_stay_in_unit_range() {
    let world = two_sphere_scene();
    let time = Interval::new(1_000, INF);
    let ray = Ray::new(Vec3::new(0, 0, 0), Vec3::new(0, 0, -SCALE));
    for depth in 0..6 {
        let c = Camera::test_colorizer(&ray, &world, time, depth);
        assert!(0 <= c.x && c.x <= SCALE);
        assert!(0 <= c.y && c.y <= SCALE);
        assert!(0 <= c.z && c.z <= SCALE);
    }
}

#[test]
fn samplers_stay_in_range() {
    let off = UniformOffset2D::new(-50_000, 50_000);
    for _ in 0..32 {
        let (a, b) = off.sample();
        assert!(-50_000 <= a && a < 50_000);
        assert!(-50_000 <= b && b < 50_000);
    }
    let cube = UniformVec3D::new(-SCALE, SCALE);
    for _ in 0..32 {
        let v = cube.sample();
        assert!(-SCALE <= v.x && v.x < SCALE);
        assert!(-SCALE <= v.y && v.y < SCALE);
        assert!(-SCALE <= v.z && v.z < SCALE);
    }
    for _ in 0..32 {
        let u = UniformUnitVec3D::random_unit_vector();
        assert!(-SCALE <= u.x && u.x <= SCALE);
        assert!(-SCALE <= u.y && u.y <= SCALE);
        assert!(-SCALE <= u.z && u.z <= SCALE);
        // A unit draw is never the zero vector.
        assert!(u.x != 0 || u.y != 0 || u.z != 0);
        let h = UniformUnitVec3D::random_on_hemisphere(&Vec3::new(0, SCALE, 0));
        assert!(-SCALE <= h.y && h.y <= SCALE);
        // The hemisphere draw never opposes its normal.
        assert!(h.dot(Vec3::new(0, SCALE, 0)) >= 0);
    }
}
