//! Surface materials and their scattering behaviour.
//!
//! The material set is closed: a tagged variant dispatches the scattering
//! contract over the diffuse, metallic and dielectric behaviours.  Each
//! behaviour has a deterministic core that takes the random draws it uses as
//! plain arguments, so its contract is proved for every draw; the sampling
//! wrappers feed the core from the random source.

use crate::color::Color;
use crate::distribution::{random_below, UniformUnitVec3D};
use crate::fixed::{fadd, fadd_s, fdiv, fdiv_s, fits, fmul, fmul_s, fsqrt, fsqrt_s, fsub, fsub_s,
    SCALE, VMAX};
use crate::hittable::HitRecord;
use crate::ray::Ray;
use crate::vector::{
    lemma_near_zero_dot2, v_add, v_bounded, v_dot, v_dot2, v_near_zero, v_reflect, v_refract,
    v_scale, v_unit, v_within, Vec3, Vector,
};
use vstd::prelude::*;

verus! {

/// A color whose channels all lie in `[0, 1]`: a valid albedo.
pub open spec fn albedo_wf(c: Color) -> bool {
    0 <= c.x <= SCALE && 0 <= c.y <= SCALE && 0 <= c.z <= SCALE
}

#[derive(Clone, Copy, PartialEq, Eq, Structural, Debug)]
pub struct Lambertian {
    pub albedo: Color,
}

#[derive(Clone, Copy, PartialEq, Eq, Structural, Debug)]
pub struct Metal {
    pub albedo: Color,
    pub fuzz: i64,
}

#[derive(Clone, Copy, PartialEq, Eq, Structural, Debug)]
pub struct Dielectric {
    pub refractive_index: i64,
}

/// The closed set of surface behaviours.
#[derive(Clone, Copy, PartialEq, Eq, Structural, Debug)]
pub enum Material {
    Lambertian(Lambertian),
    Metal(Metal),
    Dielectric(Dielectric),
}

/// Construction-time validity of a material: albedo within `[0, 1]`,
/// fuzz within `[0, 1]`, refractive index positive.
pub open spec fn material_wf(m: Material) -> bool {
    match m {
        Material::Lambertian(l) => albedo_wf(l.albedo),
        Material::Metal(mt) => albedo_wf(mt.albedo) && 0 <= mt.fuzz <= SCALE,
        Material::Dielectric(d) => 0 < d.refractive_index <= VMAX,
    }
}

impl Lambertian {
    pub fn new(albedo: Color) -> (r: Lambertian)
        requires
            albedo_wf(albedo),
        ensures
            r == (Lambertian { albedo }),
    {
        Lambertian { albedo }
    }
}

impl Metal {
    pub fn new(albedo: Color, fuzz: i64) -> (r: Metal)
        requires
            albedo_wf(albedo),
            0 <= fuzz <= SCALE,
        ensures
            r == (Metal { albedo, fuzz }),
    {
        Metal { albedo, fuzz }
    }
}

impl Dielectric {
    pub fn new(refractive_index: i64) -> (r: Dielectric)
        requires
            0 < refractive_index <= VMAX,
        ensures
            r == (Dielectric { refractive_index }),
    {
        Dielectric { refractive_index }
    }
}

/// The outcome of a surface interaction: the scattered ray and the color
/// multiplier it carries.
#[derive(Clone, Copy, PartialEq, Eq, Structural, Debug)]
pub struct Scattering {
    pub ray: Ray,
    pub attenuation: Color,
}

impl Scattering {
    pub fn new(ray: Ray, attenuation: Color) -> (r: Scattering)
        ensures
            r == (Scattering { ray, attenuation }),
    {
        Scattering { ray, attenuation }
    }

    pub fn ray(&self) -> (r: Ray)
        ensures
            r == self.ray,
    {
        self.ray
    }

    pub fn attenuation(&self) -> (r: Color)
        ensures
            r == self.attenuation,
    {
        self.attenuation
    }
}

/// Lossless glass attenuates nothing.
pub open spec fn white_s() -> Color {
    Vec3 { x: SCALE, y: SCALE, z: SCALE }
}

/// Diffuse scattering: the unit draw added to the normal, falling back to
/// the bare normal when the sum cancels to nothing.  Always scatters.
pub open spec fn lambertian_scatter_s(rec: HitRecord, albedo: Color, unit: Vec3) -> Scattering {
    let d0 = v_add(unit, rec.normal);
    let dir = if v_near_zero(d0) {
        rec.normal
    } else {
        d0
    };
    Scattering { ray: Ray { origin: rec.point, direction: dir }, attenuation: albedo }
}

/// The fuzzed metallic reflection direction.
pub open spec fn metal_out_s(ray: Ray, rec: HitRecord, fuzz: i64, unit: Vec3) -> Vec3 {
    v_add(v_unit(v_reflect(ray.direction, rec.normal)), v_scale(fuzz, unit))
}

/// Metallic scattering: the normalized mirror reflection perturbed by
/// `fuzz` times the unit draw; absorbed when the result does not rise
/// above the surface (or the reflection itself degenerates to zero).
pub open spec fn metal_scatter_s(ray: Ray, rec: HitRecord, m: Metal, unit: Vec3) -> Option<
    Scattering,
> {
    let refl = v_reflect(ray.direction, rec.normal);
    if v_near_zero(refl) {
        None
    } else {
        let out = metal_out_s(ray, rec, m.fuzz, unit);
        if v_dot(out, rec.normal) > 0 {
            Some(Scattering { ray: Ray { origin: rec.point, direction: out }, attenuation: m.albedo })
        } else {
            None
        }
    }
}

/// The relative refractive index: inverted when entering the surface.
pub open spec fn dielectric_eta_s(rec: HitRecord, d: Dielectric) -> i64 {
    if rec.front_face {
        fdiv_s(SCALE, d.refractive_index)
    } else {
        d.refractive_index
    }
}

/// The cosine of the incidence angle, capped at one.
pub open spec fn dielectric_cos_s(ray: Ray, rec: HitRecord) -> i64 {
    let dd = fsub_s(0, v_dot(v_unit(ray.direction), rec.normal));
    if dd > SCALE {
        SCALE as i64
    } else {
        dd
    }
}

/// The sine of the incidence angle, from the cosine.
pub open spec fn dielectric_sin_s(ray: Ray, rec: HitRecord) -> i64 {
    let cos = dielectric_cos_s(ray, rec);
    fsqrt_s(fsub_s(SCALE, fmul_s(cos, cos)))
}

/// Schlick's reflectance approximation `r0 + (1 - r0) (1 - cos)^5` with
/// `r0 = ((1 - eta) / (1 + eta))^2`.
pub open spec fn reflectance_s(cos: i64, eta: i64) -> i64 {
    let r0t = fdiv_s(fsub_s(SCALE, eta), fadd_s(SCALE, eta));
    let r0 = fmul_s(r0t, r0t);
    let omc = fsub_s(SCALE, cos);
    let p5 = fmul_s(omc, fmul_s(omc, fmul_s(omc, fmul_s(omc, omc))));
    fadd_s(r0, fmul_s(fsub_s(SCALE, r0), p5))
}

/// Dielectric scattering: reflect on total internal reflection
/// (`eta * sin > 1`) or when the reflectance exceeds the uniform draw,
/// otherwise refract.  Always scatters, attenuating nothing.
pub open spec fn dielectric_scatter_s(ray: Ray, rec: HitRecord, d: Dielectric, draw: i64)
    -> Scattering {
    let eta = dielectric_eta_s(rec, d);
    let ui = v_unit(ray.direction);
    let cos = dielectric_cos_s(ray, rec);
    let sin = dielectric_sin_s(ray, rec);
    let out = if fmul_s(eta, sin) > SCALE || reflectance_s(cos, eta) > draw {
        v_reflect(ui, rec.normal)
    } else {
        v_refract(ui, rec.normal, eta)
    };
    Scattering { ray: Ray { origin: rec.point, direction: out }, attenuation: white_s() }
}

/// One material interaction, deterministic in the draws handed to it.
pub open spec fn material_scatter_s(m: Material, ray: Ray, rec: HitRecord, unit: Vec3, draw: i64)
    -> Option<Scattering> {
    match m {
        Material::Lambertian(l) => Some(lambertian_scatter_s(rec, l.albedo, unit)),
        Material::Metal(mt) => metal_scatter_s(ray, rec, mt, unit),
        Material::Dielectric(d) => Some(dielectric_scatter_s(ray, rec, d, draw)),
    }
}

/// Componentwise darkening of a bounce estimate by an attenuation.
pub open spec fn attenuate_s(a: Color, b: Color) -> Color {
    Vec3 { x: fmul_s(a.x, b.x), y: fmul_s(a.y, b.y), z: fmul_s(a.z, b.z) }
}

/// What a scattering outcome guarantees its consumer: ray origin at the
/// hit point, stored direction and attenuation within `[0, 1]` channels.
pub open spec fn scattering_wf(sc: Scattering, rec: HitRecord) -> bool {
    sc.ray.origin == rec.point && v_bounded(sc.ray.direction) && albedo_wf(sc.attenuation)
}

/// A record fit for scattering: stored point and normal.
pub open spec fn rec_wf(rec: HitRecord) -> bool {
    v_bounded(rec.point) && v_bounded(rec.normal)
}

impl Lambertian {
    /// The diffuse core, deterministic in the unit draw: never absorbs.
    pub fn scatter_with(&self, rec: &HitRecord, unit: Vector) -> (r: Option<Scattering>)
        requires
            rec_wf(*rec),
            albedo_wf(self.albedo),
            v_within(unit, SCALE),
        ensures
            r == Some(lambertian_scatter_s(*rec, self.albedo, unit)),
            r is Some,
            scattering_wf(r->Some_0, *rec),
    {
        let d0: Vector = unit.vadd(rec.normal);
        let dir: Vector = if d0.near_zero() {
            rec.normal
        } else {
            d0
        };
        Some(Scattering { ray: Ray { origin: rec.point, direction: dir }, attenuation: self.albedo })
    }
}

impl Metal {
    /// The metallic core, deterministic in the unit draw.  Absorption
    /// happens exactly when the fuzzed reflection fails to rise above the
    /// surface: `dot(out, normal) <= 0` (a reflection that cancels to zero
    /// counts as such a failure).
    pub fn scatter_with(&self, ray: &Ray, rec: &HitRecord, unit: Vector) -> (r: Option<Scattering>)
        requires
            rec_wf(*rec),
            albedo_wf(self.albedo),
            0 <= self.fuzz <= SCALE,
            v_within(unit, SCALE),
            v_bounded(ray.direction),
        ensures
            r == metal_scatter_s(*ray, *rec, *self, unit),
            !v_near_zero(v_reflect(ray.direction, rec.normal)) ==> ((r is None) <==> v_dot(
                metal_out_s(*ray, *rec, self.fuzz, unit),
                rec.normal,
            ) <= 0),
            r matches Some(sc) ==> scattering_wf(sc, *rec),
    {
        let refl: Vector = ray.direction.reflect(rec.normal);
        if refl.near_zero() {
            return None;
        }
        proof {
            lemma_near_zero_dot2(refl);
        }
        let out: Vector = refl.normalize().vadd(unit.scale(self.fuzz));
        if out.dot(rec.normal) > 0 {
            Some(Scattering { ray: Ray { origin: rec.point, direction: out }, attenuation: self.albedo })
        } else {
            None
        }
    }
}

impl Dielectric {
    /// The dielectric core, deterministic in the uniform draw.  Past the
    /// critical angle (`eta * sin > 1`) it reflects whatever the draw;
    /// otherwise the draw arbitrates between Schlick reflection and
    /// refraction.  Never absorbs.
    pub fn scatter_with(&self, ray: &Ray, rec: &HitRecord, draw: i64) -> (r: Option<Scattering>)
        requires
            rec_wf(*rec),
            0 < self.refractive_index <= VMAX,
            v_bounded(ray.direction),
            v_dot2(ray.direction, ray.direction) > 0,
            fits(draw),
        ensures
            r == Some(dielectric_scatter_s(*ray, *rec, *self, draw)),
            r is Some,
            fmul_s(dielectric_eta_s(*rec, *self), dielectric_sin_s(*ray, *rec)) > SCALE
                ==> (r->Some_0).ray.direction == v_reflect(v_unit(ray.direction), rec.normal),
            scattering_wf(r->Some_0, *rec),
    {
        let eta: i64 = if rec.front_face {
            fdiv(SCALE, self.refractive_index)
        } else {
            self.refractive_index
        };
        let ui: Vector = ray.direction.normalize();
        let dd: i64 = fsub(0, ui.dot(rec.normal));
        let cos: i64 = if dd > SCALE {
            SCALE
        } else {
            dd
        };
        let sin: i64 = fsqrt(fsub(SCALE, fmul(cos, cos)));
        let reflectance: i64 = {
            let r0t: i64 = fdiv(fsub(SCALE, eta), fadd(SCALE, eta));
            let r0: i64 = fmul(r0t, r0t);
            let omc: i64 = fsub(SCALE, cos);
            let p5: i64 = fmul(omc, fmul(omc, fmul(omc, fmul(omc, omc))));
            fadd(r0, fmul(fsub(SCALE, r0), p5))
        };
        let out: Vector = if fmul(eta, sin) > SCALE || reflectance > draw {
            ui.reflect(rec.normal)
        } else {
            ui.refract(rec.normal, eta)
        };
        Some(Scattering { ray: Ray { origin: rec.point, direction: out }, attenuation: Vec3 {
            x: SCALE,
            y: SCALE,
            z: SCALE,
        } })
    }
}

impl Material {
    /// One surface interaction.  The draws come from the sampler, so the
    /// result is pinned only up to them: it equals the deterministic core
    /// on some valid draw pair, and the diffuse and dielectric behaviours
    /// never absorb.
    pub fn scatter(&self, ray: &Ray, rec: &HitRecord) -> (r: Option<Scattering>)
        requires
            material_wf(*self),
            rec_wf(*rec),
            v_bounded(ray.direction),
            v_dot2(ray.direction, ray.direction) > 0,
        ensures
            exists|unit: Vec3, draw: i64|
                v_within(unit, SCALE) && 0 <= draw < SCALE && r == material_scatter_s(
                    *self,
                    *ray,
                    *rec,
                    unit,
                    draw,
                ),
            self is Lambertian ==> r is Some,
            self is Dielectric ==> r is Some,
            r matches Some(sc) ==> scattering_wf(sc, *rec),
    {
        match self {
            Material::Lambertian(l) => {
                let unit: Vector = UniformUnitVec3D::random_unit_vector();
                let r: Option<Scattering> = l.scatter_with(rec, unit);
                proof {
                    assert(v_within(unit, SCALE) && 0 <= 0i64 < SCALE && r == material_scatter_s(
                        *self, *ray, *rec, unit, 0i64));
                }
                r
            },
            Material::Metal(m) => {
                let unit: Vector = UniformUnitVec3D::random_unit_vector();
                let r: Option<Scattering> = m.scatter_with(ray, rec, unit);
                proof {
                    assert(v_within(unit, SCALE) && 0 <= 0i64 < SCALE && r == material_scatter_s(
                        *self, *ray, *rec, unit, 0i64));
                }
                r
            },
            Material::Dielectric(d) => {
                let draw: i64 = random_below(SCALE);
                let r: Option<Scattering> = d.scatter_with(ray, rec, draw);
                proof {
                    let u0 = Vec3 { x: 0, y: 0, z: 0 };
                    assert(v_within(u0, SCALE) && 0 <= draw < SCALE && r == material_scatter_s(
                        *self, *ray, *rec, u0, draw));
                }
                r
            },
        }
    }
}

} // verus!
