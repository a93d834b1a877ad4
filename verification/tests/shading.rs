use ray_tracer::color::Color;
use ray_tracer::fixed::SCALE;
use ray_tracer::hittable::HitRecord;
use ray_tracer::material::{Dielectric, Lambertian, Material, Metal};
use ray_tracer::ray::Ray;
use ray_tracer::vector::Vec3;

fn rec_up(material: Material, front_face: bool) -> HitRecord {
    HitRecord::new(
        Vec3::new(0, 0, -SCALE),
        Vec3::new(0, 0, SCALE),
        material,
        SCALE,
        front_face,
    )
}

#[test]
fn lambertian_never_absorbs() {
    let l = Lambertian::new(Vec3::new(50_000, 50_000, 50_000));
    let rec = rec_up(Material::Lambertian(l), true);
    // An ordinary draw scatters along normal + draw.
    let s = l.scatter_with(&rec, Vec3::new(SCALE, 0, 0)).expect("always Some");
    assert_eq!(s.ray().direction(), Vec3::new(SCALE, 0, SCALE));
    assert_eq!(s.attenuation(), Vec3::new(50_000, 50_000, 50_000));
    assert_eq!(s.ray().origin(), Vec3::new(0, 0, -SCALE));
    // A draw that cancels the normal falls back to the bare normal.
    let c = l.scatter_with(&rec, Vec3::new(0, 0, -SCALE)).expect("always Some");
    assert_eq!(c.ray().direction(), Vec3::new(0, 0, SCALE));
    // Through the polymorphic dispatch it still always scatters.
    let m = Material::Lambertian(l);
    let ray = Ray::new(Vec3::new(0, 0, 0), Vec3::new(0, 0, -SCALE));
    assert!(m.scatter(&ray, &rec).is_some());
}

#[test]
fn metal_scatters_above_surface_and_absorbs_otherwise() {
    let albedo = Vec3::new(70_000, 60_000, 50_000);
    let ray = Ray::new(Vec3::new(0, 0, 0), Vec3::new(0, 0, -SCALE));
    // Polished metal: the head-on reflection rises along the normal.
    let polished = Metal::new(albedo, 0);
    let rec = rec_up(Material::Metal(polished), true);
    let s = polished.scatter_with(&ray, &rec, Vec3::new(SCALE, 0, 0)).expect("reflects");
    assert_eq!(s.ray().direction(), Vec3::new(0, 0, SCALE));
    assert_eq!(s.attenuation(), albedo);
    // Full fuzz with a draw pointing into the surface cancels the
    // reflection: dot(out, normal) <= 0, absorbed.
    let fuzzy = Metal::new(albedo, SCALE);
    let rec2 = rec_up(Material::Metal(fuzzy), true);
    assert!(fuzzy.scatter_with(&ray, &rec2, Vec3::new(0, 0, -SCALE)).is_none());
    // The same fuzz with a sideways draw stays above the surface.
    let s2 = fuzzy.scatter_with(&ray, &rec2, Vec3::new(SCALE, 0, 0)).expect("reflects");
    assert_eq!(s2.ray().direction(), Vec3::new(SCALE, 0, SCALE));
}

#[test]
fn dielectric_reflects_past_critical_angle_for_every_draw() {
    // Leaving glass (relative index 1.5) at 45 degrees exceeds the
    // critical angle: the ray reflects no matter what the uniform draw is.
    let glass = Dielectric::new(150_000);
    let rec = HitRecord::new(
        Vec3::new(0, 0, 0),
        Vec3::new(0, SCALE, 0),
        Material::Dielectric(glass),
        SCALE,
        false,
    );
    let ray = Ray::new(Vec3::new(-SCALE, SCALE, 0), Vec3::new(SCALE, -SCALE, 0));
    let lo = glass.scatter_with(&ray, &rec, 0).expect("always Some");
    let hi = glass.scatter_with(&ray, &rec, SCALE - 1).expect("always Some");
    assert_eq!(lo.ray().direction(), hi.ray().direction());
    assert_eq!(lo.ray().direction(), Vec3::new(70_710, 70_710, 0));
    // Glass is lossless.
    assert_eq!(lo.attenuation(), Vec3::new(SCALE, SCALE, SCALE));
}

#[test]
fn dielectric_refracts_head_on_entering_when_draw_is_high() {
    // Head-on into glass: no total internal reflection, and Schlick's
    // reflectance at cos = 1 is r0 = ((1-eta)/(1+eta))^2, small; a draw
    // above it refracts straight through.
    let glass = Dielectric::new(150_000);
    let rec = rec_up(Material::Dielectric(glass), true);
    let ray = Ray::new(Vec3::new(0, 0, 0), Vec3::new(0, 0, -SCALE));
    let s = glass.scatter_with(&ray, &rec, SCALE - 1).expect("always Some");
    assert_eq!(s.ray().direction(), Vec3::new(0, 0, -SCALE));
}

#[test]
fn gamma_clamp_quantize_pipeline() {
    // Linear (1.0, 0.0, 0.25): gamma (1.0, 0.0, 0.5), clamp
    // (0.999, 0.0, 0.5), bytes by truncation of 255.999 * channel.
    let c: Color = Vec3::new(SCALE, 0, 25_000);
    assert_eq!(Vec3::gamma_correction(SCALE), SCALE);
    assert_eq!(Vec3::gamma_correction(0), 0);
    assert_eq!(Vec3::gamma_correction(25_000), 50_000);
    assert_eq!(c.r_byte(), 255);
    assert_eq!(c.g_byte(), 0);
    assert_eq!(c.b_byte(), 127);
    assert_eq!(c.bytes(), (255, 0, 127));
    // Negative light is darkened to zero, not wrapped.
    assert_eq!(Vec3::new(-SCALE, 0, 0).r_byte(), 0);
    // Channel accessors.
    assert_eq!(c.r(), SCALE);
    assert_eq!(c.g(), 0);
    assert_eq!(c.b(), 25_000);
}
