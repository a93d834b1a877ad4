//! Intersectable surfaces: the sphere primitive and hit records.
//!
//! The scene domain is bounded: sphere centers and radii lie within `CMAX`
//! and ray descriptions within `RMAX`, so that the quadratic's discriminant
//! is computed exactly in 128-bit integers, with no rounding at all before
//! the square root.

use crate::fixed::{
    clip, clip_i128, div_trunc_i128, fits, isqrt_u128, lemma_mul_abs_bound, lemma_sqrt_floor,
    lemma_sqrt_floor_le, lemma_sqrt_floor_square, lemma_tdiv_exact, lemma_tdiv_le, sqrt_floor,
    tdiv, SCALE, VMAX,
};
use vstd::arithmetic::div_mod::lemma_fundamental_div_mod;
use crate::interval::Interval;
use crate::material::{material_wf, Material};
use crate::ray::{ray_at, ray_bounded, Ray};
use crate::vector::{v_div, v_dot2, v_neg, v_scale, v_sub, v_within, Point, Vec3, Vector};
use vstd::prelude::*;

verus! {

/// Bound on scene coordinates: sphere centers and radii, in fixed point.
pub const CMAX: i64 = 100_000_000;

/// Bound on ray coordinates: origins and directions, in fixed point.
pub const RMAX: i64 = 2_000_000_000;

/// One successful intersection: the point reached, the unit-length normal
/// opposing the incoming ray, the surface material, the ray parameter, and
/// whether the geometric normal already opposed the ray.
#[derive(Clone, Copy, PartialEq, Eq, Structural, Debug)]
pub struct HitRecord {
    pub point: Point,
    pub normal: Vector,
    pub material: Material,
    pub t: i64,
    pub front_face: bool,
}

impl HitRecord {
    pub fn new(point: Point, normal: Vector, material: Material, t: i64, front_face: bool) -> (r:
        HitRecord)
        ensures
            r == (HitRecord { point, normal, material, t, front_face }),
    {
        HitRecord { point, normal, material, t, front_face }
    }

    pub fn point(&self) -> (r: Point)
        ensures
            r == self.point,
    {
        self.point
    }

    pub fn normal(&self) -> (r: Vector)
        ensures
            r == self.normal,
    {
        self.normal
    }

    pub fn material(&self) -> (r: Material)
        ensures
            r == self.material,
    {
        self.material
    }

    pub fn t(&self) -> (r: i64)
        ensures
            r == self.t,
    {
        self.t
    }

    pub fn front_face(&self) -> (r: bool)
        ensures
            r == self.front_face,
    {
        self.front_face
    }
}

#[derive(Clone, Copy, PartialEq, Eq, Structural, Debug)]
pub struct Sphere {
    pub center: Point,
    pub radius: i64,
    pub material: Material,
}

/// A well-formed sphere: center and positive radius within the scene
/// domain, material valid.
pub open spec fn sphere_wf(s: Sphere) -> bool {
    v_within(s.center, CMAX) && 0 < s.radius <= CMAX && material_wf(s.material)
}

/// A ray whose description lies in the intersectable domain.
pub open spec fn ray_dom(r: Ray) -> bool {
    v_within(r.origin, RMAX) && v_within(r.direction, RMAX)
}

/// The record produced for a hit of `s` at parameter `t`: the point reached,
/// the outward normal `(point - center) / radius` flipped to oppose the ray,
/// with `front_face` true exactly when no flip was needed.
pub open spec fn sphere_record_s(s: Sphere, ray: Ray, t: i64) -> HitRecord {
    let point = ray_at(ray, t);
    let outward = v_div(v_sub(point, s.center), s.radius);
    let ff = v_dot2(ray.direction, outward) < 0;
    HitRecord {
        point,
        normal: if ff {
            outward
        } else {
            v_neg(outward)
        },
        material: s.material,
        t,
        front_face: ff,
    }
}

/// Ray-sphere intersection.  With `D` the direction and `OC = center -
/// origin`, the exact 128-bit quantities `a = D.D`, `h = D.OC`,
/// `c = OC.OC - r^2` give the discriminant `h^2 - a c`; a negative
/// discriminant (or a degenerate direction) is a miss, and otherwise the
/// smaller root `(h - sqrt) / a` is tried strictly inside `(tmin, tmax)`
/// before the larger one.
pub open spec fn sphere_hit_s(s: Sphere, ray: Ray, tmin: i64, tmax: i64) -> Option<HitRecord> {
    let a2 = v_dot2(ray.direction, ray.direction);
    let oc = v_sub(s.center, ray.origin);
    let h2 = v_dot2(ray.direction, oc);
    let c2 = v_dot2(oc, oc) - s.radius * s.radius;
    let disc = h2 * h2 - a2 * c2;
    if a2 == 0 || disc < 0 {
        None
    } else {
        let sq = sqrt_floor(disc);
        let t1 = clip(tdiv((h2 - sq) * SCALE, a2));
        if tmin < t1 < tmax {
            Some(sphere_record_s(s, ray, t1))
        } else {
            let t2 = clip(tdiv((h2 + sq) * SCALE, a2));
            if tmin < t2 < tmax {
                Some(sphere_record_s(s, ray, t2))
            } else {
                None
            }
        }
    }
}

/// Exact bounds on the intersection quantities over the scene and ray
/// domains: everything up to the discriminant stays well inside 128 bits.
proof fn lemma_hit_bounds(d: Vec3, oc: Vec3, radius: i64)
    requires
        v_within(d, RMAX),
        v_within(oc, 2_100_000_000),
        0 < radius <= CMAX,
    ensures
        0 <= v_dot2(d, d) <= 12_000_000_000_000_000_000,
        -12_600_000_000_000_000_000 <= v_dot2(d, oc) <= 12_600_000_000_000_000_000,
        0 <= v_dot2(oc, oc) <= 13_230_000_000_000_000_000,
        0 < radius * radius <= 10_000_000_000_000_000,
        v_dot2(d, oc) * v_dot2(d, oc) <= 158_760_000_000_000_000_000_000_000_000_000_000_000,
        0 <= v_dot2(d, oc) * v_dot2(d, oc),
        v_dot2(d, d) * (v_dot2(oc, oc) - radius * radius)
            <= 158_880_000_000_000_000_000_000_000_000_000_000_000,
        v_dot2(d, d) * (v_dot2(oc, oc) - radius * radius)
            >= -120_000_000_000_000_000_000_000_000_000_000_000,
{
    lemma_mul_abs_bound(d.x as int, d.x as int, RMAX as int, RMAX as int);
    lemma_mul_abs_bound(d.y as int, d.y as int, RMAX as int, RMAX as int);
    lemma_mul_abs_bound(d.z as int, d.z as int, RMAX as int, RMAX as int);
    assert(d.x * d.x >= 0 && d.y * d.y >= 0 && d.z * d.z >= 0) by (nonlinear_arith);
    lemma_mul_abs_bound(d.x as int, oc.x as int, RMAX as int, 2_100_000_000);
    lemma_mul_abs_bound(d.y as int, oc.y as int, RMAX as int, 2_100_000_000);
    lemma_mul_abs_bound(d.z as int, oc.z as int, RMAX as int, 2_100_000_000);
    lemma_mul_abs_bound(oc.x as int, oc.x as int, 2_100_000_000, 2_100_000_000);
    lemma_mul_abs_bound(oc.y as int, oc.y as int, 2_100_000_000, 2_100_000_000);
    lemma_mul_abs_bound(oc.z as int, oc.z as int, 2_100_000_000, 2_100_000_000);
    assert(oc.x * oc.x >= 0 && oc.y * oc.y >= 0 && oc.z * oc.z >= 0) by (nonlinear_arith);
    assert(0 < radius * radius <= 10_000_000_000_000_000) by (nonlinear_arith)
        requires
            0 < radius <= CMAX,
    {}
    let a2 = v_dot2(d, d);
    let h2 = v_dot2(d, oc);
    let c2 = v_dot2(oc, oc) - radius * radius;
    lemma_mul_abs_bound(h2, h2, 12_600_000_000_000_000_000, 12_600_000_000_000_000_000);
    assert(h2 * h2 >= 0) by (nonlinear_arith);
    if c2 >= 0 {
        lemma_mul_abs_bound(a2, c2, 12_000_000_000_000_000_000, 13_240_000_000_000_000_000);
        assert(a2 * c2 >= 0) by (nonlinear_arith)
            requires
                a2 >= 0,
                c2 >= 0,
        {}
    } else {
        lemma_mul_abs_bound(a2, c2, 12_000_000_000_000_000_000, 10_000_000_000_000_000);
    }
}

/// A record reported by the intersection test is fit for shading: its
/// fields are stored values and it carries the sphere's own material.
pub proof fn lemma_sphere_hit_wf(s: Sphere, ray: Ray, tmin: i64, tmax: i64)
    requires
        sphere_wf(s),
        ray_bounded(ray),
    ensures
        sphere_hit_s(s, ray, tmin, tmax) matches Some(rec) ==> crate::material::rec_wf(rec)
            && material_wf(rec.material) && fits(rec.t) && rec.material == s.material,
{
}

impl Sphere {
    pub fn new(center: Point, radius: i64, material: Material) -> (r: Sphere)
        requires
            v_within(center, CMAX),
            0 < radius <= CMAX,
            material_wf(material),
        ensures
            r == (Sphere { center, radius, material }),
    {
        Sphere { center, radius, material }
    }

    pub fn center(&self) -> (r: Point)
        ensures
            r == self.center,
    {
        self.center
    }

    pub fn radius(&self) -> (r: i64)
        ensures
            r == self.radius,
    {
        self.radius
    }

    /// The hit record for a root `t` accepted by the intersection test.
    fn make_record(&self, ray: &Ray, t: i64) -> (r: HitRecord)
        requires
            sphere_wf(*self),
            ray_dom(*ray),
            fits(t),
        ensures
            r == sphere_record_s(*self, *ray, t),
    {
        let point: Point = ray.at(t);
        let outward: Vector = point.vsub(self.center).vdiv(self.radius);
        proof {
            lemma_mul_abs_bound(ray.direction.x as int, outward.x as int, RMAX as int, VMAX as int);
            lemma_mul_abs_bound(ray.direction.y as int, outward.y as int, RMAX as int, VMAX as int);
            lemma_mul_abs_bound(ray.direction.z as int, outward.z as int, RMAX as int, VMAX as int);
        }
        let dn: i128 = (ray.direction.x as i128) * (outward.x as i128) + (ray.direction.y as i128)
            * (outward.y as i128) + (ray.direction.z as i128) * (outward.z as i128);
        let front_face: bool = dn < 0;
        let normal: Vector = if front_face {
            outward
        } else {
            outward.vneg()
        };
        HitRecord { point, normal, material: self.material, t, front_face }
    }

    /// The intersection contract: exactly what `sphere_hit_s` states.
    pub fn hit(&self, ray: &Ray, time: Interval) -> (r: Option<HitRecord>)
        requires
            sphere_wf(*self),
            ray_dom(*ray),
        ensures
            r == sphere_hit_s(*self, *ray, time.min, time.max),
    {
        let d: Vector = ray.direction;
        let oc: Vector = self.center.vsub(ray.origin);
        proof {
            lemma_hit_bounds(d, oc, self.radius);
            lemma_mul_abs_bound(d.x as int, d.x as int, RMAX as int, RMAX as int);
            lemma_mul_abs_bound(d.y as int, d.y as int, RMAX as int, RMAX as int);
            lemma_mul_abs_bound(d.z as int, d.z as int, RMAX as int, RMAX as int);
            lemma_mul_abs_bound(d.x as int, oc.x as int, RMAX as int, 2_100_000_000);
            lemma_mul_abs_bound(d.y as int, oc.y as int, RMAX as int, 2_100_000_000);
            lemma_mul_abs_bound(d.z as int, oc.z as int, RMAX as int, 2_100_000_000);
            lemma_mul_abs_bound(oc.x as int, oc.x as int, 2_100_000_000, 2_100_000_000);
            lemma_mul_abs_bound(oc.y as int, oc.y as int, 2_100_000_000, 2_100_000_000);
            lemma_mul_abs_bound(oc.z as int, oc.z as int, 2_100_000_000, 2_100_000_000);
        }
        let a2: i128 = (d.x as i128) * (d.x as i128) + (d.y as i128) * (d.y as i128) + (
        d.z as i128) * (d.z as i128);
        let h2: i128 = (d.x as i128) * (oc.x as i128) + (d.y as i128) * (oc.y as i128) + (
        d.z as i128) * (oc.z as i128);
        let oc2: i128 = (oc.x as i128) * (oc.x as i128) + (oc.y as i128) * (oc.y as i128) + (
        oc.z as i128) * (oc.z as i128);
        let c2: i128 = oc2 - (self.radius as i128) * (self.radius as i128);
        if a2 == 0 {
            return None;
        }
        let disc: i128 = h2 * h2 - a2 * c2;
        if disc < 0 {
            return None;
        }
        proof {
            lemma_sqrt_floor_le(disc as int, 12_610_000_000_000_000_000);
        }
        let sq: u128 = isqrt_u128(disc as u128);
        let t1: i64 = clip_i128(div_trunc_i128((h2 - sq as i128) * (SCALE as i128), a2));
        if time.min < t1 && t1 < time.max {
            Some(self.make_record(ray, t1))
        } else {
            let t2: i64 = clip_i128(div_trunc_i128((h2 + sq as i128) * (SCALE as i128), a2));
            if time.min < t2 && t2 < time.max {
                Some(self.make_record(ray, t2))
            } else {
                None
            }
        }
    }
}

/// Narrowing the upper bound of the search keeps exactly the hits whose
/// parameter falls below the new bound, with the same record: what a sphere
/// reports does not otherwise depend on how far a scan has narrowed.
pub proof fn lemma_sphere_hit_narrow(s: Sphere, ray: Ray, tmin: i64, tmax: i64, tcap: i64)
    requires
        tcap <= tmax,
    ensures
        sphere_hit_s(s, ray, tmin, tcap) == (match sphere_hit_s(s, ray, tmin, tmax) {
            Some(rec) => if rec.t < tcap {
                Some(rec)
            } else {
                None::<HitRecord>
            },
            None => None::<HitRecord>,
        }),
{
    let a2 = v_dot2(ray.direction, ray.direction);
    let oc = v_sub(s.center, ray.origin);
    let h2 = v_dot2(ray.direction, oc);
    let c2 = v_dot2(oc, oc) - s.radius * s.radius;
    let disc = h2 * h2 - a2 * c2;
    if !(a2 == 0 || disc < 0) {
        assert(a2 >= 0) by (nonlinear_arith)
            requires
                a2 == v_dot2(ray.direction, ray.direction),
        {}
        let sq = sqrt_floor(disc);
        lemma_sqrt_floor(disc);
        assert((h2 - sq) * SCALE <= (h2 + sq) * SCALE) by (nonlinear_arith)
            requires
                sq >= 0,
        {}
        lemma_tdiv_le((h2 - sq) * SCALE, (h2 + sq) * SCALE, a2);
        let t1 = clip(tdiv((h2 - sq) * SCALE, a2));
        let t2 = clip(tdiv((h2 + sq) * SCALE, a2));
        assert(t1 <= t2);
    }
}

/// The ordered scene: an aggregate of spheres scanned in order.
pub struct HittableList {
    pub objects: Vec<Sphere>,
}

/// Every object of the scene is a well-formed sphere.
pub open spec fn list_wf(l: HittableList) -> bool {
    forall|i: int| 0 <= i < l.objects@.len() ==> sphere_wf(#[trigger] l.objects@[i])
}

/// The rest of the shrinking-interval scan, from object `i` on, with the
/// best hit found so far and its parameter as the current upper bound.
pub open spec fn list_hit_from(
    objs: Seq<Sphere>,
    ray: Ray,
    tmin: i64,
    closest: i64,
    best: Option<HitRecord>,
    i: int,
) -> Option<HitRecord>
    decreases objs.len() - i,
{
    if i < 0 || i >= objs.len() {
        best
    } else {
        match sphere_hit_s(objs[i], ray, tmin, closest) {
            Some(rec) => list_hit_from(objs, ray, tmin, rec.t, Some(rec), i + 1),
            None => list_hit_from(objs, ray, tmin, closest, best, i + 1),
        }
    }
}

/// The scan over the whole scene.
pub open spec fn list_hit_s(l: HittableList, ray: Ray, tmin: i64, tmax: i64) -> Option<HitRecord> {
    list_hit_from(l.objects@, ray, tmin, tmax, None, 0)
}

impl HittableList {
    pub fn new(objects: Vec<Sphere>) -> (r: HittableList)
        ensures
            r.objects@ == objects@,
    {
        HittableList { objects }
    }

    pub fn push(&mut self, s: Sphere)
        ensures
            final(self).objects@ == old(self).objects@.push(s),
    {
        self.objects.push(s);
    }

    pub fn len(&self) -> (n: usize)
        ensures
            n == self.objects@.len(),
    {
        self.objects.len()
    }

    /// The shrinking-interval scan: query each object with the interval
    /// narrowed to the best parameter so far.  The scan returns the hit
    /// nearest along the ray: no object reports an earlier one over the
    /// full interval, and it reports a miss exactly when every object
    /// misses.
    #[verifier::rlimit(30)]
    #[verifier::spinoff_prover]
    pub fn hit(&self, ray: &Ray, time: Interval) -> (r: Option<HitRecord>)
        requires
            list_wf(*self),
            ray_dom(*ray),
        ensures
            r == list_hit_s(*self, *ray, time.min, time.max),
            r matches Some(rec) ==> exists|i: int|
                0 <= i < self.objects@.len() && sphere_hit_s(
                    self.objects@[i],
                    *ray,
                    time.min,
                    time.max,
                ) == Some(rec),
            r matches Some(rec) ==> forall|i: int|
                0 <= i < self.objects@.len() ==> ((#[trigger] sphere_hit_s(
                    self.objects@[i],
                    *ray,
                    time.min,
                    time.max,
                )) matches Some(other) ==> rec.t <= other.t),
            r is None <==> forall|i: int|
                0 <= i < self.objects@.len() ==> (#[trigger] sphere_hit_s(
                    self.objects@[i],
                    *ray,
                    time.min,
                    time.max,
                )) is None,
    {
        let tmin: i64 = time.min;
        let tmax: i64 = time.max;
        let mut closest: i64 = tmax;
        let mut result: Option<HitRecord> = None;
        let n: usize = self.objects.len();
        let mut k: usize = 0;
        while k < n
            invariant
                0 <= k <= n,
                n == self.objects@.len(),
                list_wf(*self),
                ray_dom(*ray),
                match result {
                    Some(rec) => closest == rec.t && rec.t < tmax,
                    None => closest == tmax,
                },
                result matches Some(rec) ==> exists|i: int|
                    0 <= i < k && sphere_hit_s(self.objects@[i], *ray, tmin, tmax) == Some(rec),
                result matches Some(rec) ==> forall|i: int|
                    0 <= i < k ==> ((#[trigger] sphere_hit_s(self.objects@[i], *ray, tmin, tmax))
                        matches Some(other) ==> rec.t <= other.t),
                result is None ==> forall|i: int|
                    0 <= i < k ==> (#[trigger] sphere_hit_s(self.objects@[i], *ray, tmin, tmax))
                        is None,
                list_hit_from(self.objects@, *ray, tmin, closest, result, k as int) == list_hit_s(
                    *self,
                    *ray,
                    tmin,
                    tmax,
                ),
            decreases n - k,
        {
            let obj: &Sphere = &self.objects[k];
            let step: Option<HitRecord> = obj.hit(ray, Interval::new(tmin, closest));
            proof {
                lemma_sphere_hit_narrow(self.objects@[k as int], *ray, tmin, tmax, closest);
            }
            match step {
                Some(rec) => {
                    closest = rec.t;
                    result = Some(rec);
                },
                None => {},
            }
            k = k + 1;
        }
        result
    }
}

/// The exact discriminant of the intersection quadratic.
pub open spec fn disc_s(s: Sphere, ray: Ray) -> int {
    let a2 = v_dot2(ray.direction, ray.direction);
    let oc = v_sub(s.center, ray.origin);
    let h2 = v_dot2(ray.direction, oc);
    let c2 = v_dot2(oc, oc) - s.radius * s.radius;
    h2 * h2 - a2 * c2
}

/// `|D|^2` times the squared perpendicular distance of the ray's line to
/// the sphere's center: `|D|^2 |OC|^2 - (D.OC)^2`.
pub open spec fn perp2_scaled(s: Sphere, ray: Ray) -> int {
    let a2 = v_dot2(ray.direction, ray.direction);
    let oc = v_sub(s.center, ray.origin);
    let h2 = v_dot2(ray.direction, oc);
    a2 * v_dot2(oc, oc) - h2 * h2
}

/// The tangency law.  The perpendicular-offset term is nonnegative
/// (Cauchy-Schwarz, by the Lagrange identity), and the discriminant is
/// `|D|^2 r^2` minus it: a line whose perpendicular distance to the center
/// equals the radius has discriminant exactly zero (the tangent case), and
/// one farther away has a negative discriminant, so the sphere reports no
/// hit over any interval.
/// One pair of the Lagrange identity: `(ad - bc)^2 == a^2 d^2 + b^2 c^2 -
/// 2 (ac)(bd)`.
#[verifier::rlimit(100)]
#[verifier::spinoff_prover]
proof fn lemma_pair_sq(a: int, b: int, c: int, d: int)
    ensures
        (a * d - b * c) * (a * d - b * c) == (a * a) * (d * d) + (b * b) * (c * c) - 2 * ((a * c)
            * (b * d)),
{
    let u = a * d;
    let v = b * c;
    assert(u * u == (a * a) * (d * d)) by (nonlinear_arith)
        requires
            u == a * d,
    {}
    assert(v * v == (b * b) * (c * c)) by (nonlinear_arith)
        requires
            v == b * c,
    {}
    assert(u * v == (a * c) * (b * d)) by (nonlinear_arith)
        requires
            u == a * d,
            v == b * c,
    {}
    assert((u - v) * (u - v) == u * u + v * v - 2 * (u * v)) by (nonlinear_arith);
}

#[verifier::rlimit(30)]
pub proof fn lemma_tangency(s: Sphere, ray: Ray, tmin: i64, tmax: i64)
    ensures
        perp2_scaled(s, ray) >= 0,
        disc_s(s, ray) == v_dot2(ray.direction, ray.direction) * (s.radius * s.radius)
            - perp2_scaled(s, ray),
        perp2_scaled(s, ray) == v_dot2(ray.direction, ray.direction) * (s.radius * s.radius)
            ==> disc_s(s, ray) == 0,
        perp2_scaled(s, ray) > v_dot2(ray.direction, ray.direction) * (s.radius * s.radius)
            ==> disc_s(s, ray) < 0 && sphere_hit_s(s, ray, tmin, tmax) is None,
{
    let d = ray.direction;
    let oc = v_sub(s.center, ray.origin);
    let a2 = v_dot2(d, d);
    let h2 = v_dot2(d, oc);
    let dxx = d.x * d.x;
    let dyy = d.y * d.y;
    let dzz = d.z * d.z;
    let oxx = oc.x * oc.x;
    let oyy = oc.y * oc.y;
    let ozz = oc.z * oc.z;
    let qx = d.x * oc.x;
    let qy = d.y * oc.y;
    let qz = d.z * oc.z;
    let cx = d.y * oc.z - d.z * oc.y;
    let cy = d.z * oc.x - d.x * oc.z;
    let cz = d.x * oc.y - d.y * oc.x;
    // The Lagrange identity, assembled from per-pair pieces.
    assert(a2 * v_dot2(oc, oc) == dxx * oxx + dxx * oyy + dxx * ozz + dyy * oxx + dyy * oyy + dyy
        * ozz + dzz * oxx + dzz * oyy + dzz * ozz) by (nonlinear_arith)
        requires
            a2 == dxx + dyy + dzz,
            v_dot2(oc, oc) == oxx + oyy + ozz,
    {}
    assert(h2 * h2 == qx * qx + qy * qy + qz * qz + 2 * (qx * qy) + 2 * (qx * qz) + 2 * (qy * qz))
        by (nonlinear_arith)
        requires
            h2 == qx + qy + qz,
    {}
    assert(dxx * oxx == qx * qx) by (nonlinear_arith)
        requires
            dxx == d.x * d.x,
            oxx == oc.x * oc.x,
            qx == d.x * oc.x,
    {}
    assert(dyy * oyy == qy * qy) by (nonlinear_arith)
        requires
            dyy == d.y * d.y,
            oyy == oc.y * oc.y,
            qy == d.y * oc.y,
    {}
    assert(dzz * ozz == qz * qz) by (nonlinear_arith)
        requires
            dzz == d.z * d.z,
            ozz == oc.z * oc.z,
            qz == d.z * oc.z,
    {}
    lemma_pair_sq(d.y as int, d.z as int, oc.y as int, oc.z as int);
    assert(cx * cx == dyy * ozz + dzz * oyy - 2 * (qy * qz));
    lemma_pair_sq(d.z as int, d.x as int, oc.z as int, oc.x as int);
    assert(cy * cy == dzz * oxx + dxx * ozz - 2 * ((d.z * oc.z) * (d.x * oc.x)));
    assert((d.z * oc.z) * (d.x * oc.x) == qx * qz) by (nonlinear_arith)
        requires
            qx == d.x * oc.x,
            qz == d.z * oc.z,
    {}
    lemma_pair_sq(d.x as int, d.y as int, oc.x as int, oc.y as int);
    assert(cz * cz == dxx * oyy + dyy * oxx - 2 * (qx * qy));
    assert(perp2_scaled(s, ray) == cx * cx + cy * cy + cz * cz);
    assert(cx * cx >= 0 && cy * cy >= 0 && cz * cz >= 0) by (nonlinear_arith);
    assert(disc_s(s, ray) == a2 * (s.radius * s.radius) - perp2_scaled(s, ray))
        by (nonlinear_arith)
        requires
            disc_s(s, ray) == h2 * h2 - a2 * (v_dot2(oc, oc) - s.radius * s.radius),
            perp2_scaled(s, ray) == a2 * v_dot2(oc, oc) - h2 * h2,
            a2 == v_dot2(ray.direction, ray.direction),
    {}
}

/// The head-on law.  For a unit-length direction aimed exactly at the
/// center from distance `k` outside the sphere (`k > r`), and scene values
/// aligned to the fixed-point grid so that no rounding occurs, the hit is
/// the near intersection: its parameter is exactly `k - r` (the distance
/// to the center minus the radius), the normal is exactly the reversed
/// direction -- it points from the surface back toward the origin -- and
/// the hit is on the front face.
#[verifier::rlimit(30)]
#[verifier::spinoff_prover]
pub proof fn lemma_head_on_hit(s: Sphere, ray: Ray, tmin: i64, tmax: i64, k: i64)
    requires
        sphere_wf(s),
        ray_dom(ray),
        v_dot2(ray.direction, ray.direction) == SCALE * SCALE,
        SCALE * v_sub(s.center, ray.origin).x == k * ray.direction.x,
        SCALE * v_sub(s.center, ray.origin).y == k * ray.direction.y,
        SCALE * v_sub(s.center, ray.origin).z == k * ray.direction.z,
        s.radius < k,
        (s.radius * ray.direction.x) % (SCALE as int) == 0,
        (s.radius * ray.direction.y) % (SCALE as int) == 0,
        (s.radius * ray.direction.z) % (SCALE as int) == 0,
        tmin < k - s.radius < tmax,
    ensures
        sphere_hit_s(s, ray, tmin, tmax) == Some(
            sphere_record_s(s, ray, (k - s.radius) as i64),
        ),
        sphere_record_s(s, ray, (k - s.radius) as i64).t == k - s.radius,
        sphere_record_s(s, ray, (k - s.radius) as i64).front_face == true,
        sphere_record_s(s, ray, (k - s.radius) as i64).normal == (Vec3 {
            x: (-ray.direction.x) as i64,
            y: (-ray.direction.y) as i64,
            z: (-ray.direction.z) as i64,
        }),
{
    let d = ray.direction;
    let o = ray.origin;
    let c = s.center;
    let r = s.radius as int;
    let oc = v_sub(c, o);
    assert(oc.x == c.x - o.x && oc.y == c.y - o.y && oc.z == c.z - o.z);
    let a2 = v_dot2(d, d);
    let h2 = v_dot2(d, oc);
    let oc2 = v_dot2(oc, oc);
    let ss = (SCALE as int) * (SCALE as int);

    // |OC|^2 == k^2 and D.OC == k * SCALE, from the alignment hypotheses.
    assert(ss * (oc.x * oc.x) == (k * k) * (d.x * d.x)) by (nonlinear_arith)
        requires
            SCALE * oc.x == k * d.x,
            ss == (SCALE as int) * (SCALE as int),
    {}
    assert(ss * (oc.y * oc.y) == (k * k) * (d.y * d.y)) by (nonlinear_arith)
        requires
            SCALE * oc.y == k * d.y,
            ss == (SCALE as int) * (SCALE as int),
    {}
    assert(ss * (oc.z * oc.z) == (k * k) * (d.z * d.z)) by (nonlinear_arith)
        requires
            SCALE * oc.z == k * d.z,
            ss == (SCALE as int) * (SCALE as int),
    {}
    assert(ss * oc2 == ss * (oc.x * oc.x) + ss * (oc.y * oc.y) + ss * (oc.z * oc.z))
        by (nonlinear_arith)
        requires
            oc2 == oc.x * oc.x + oc.y * oc.y + oc.z * oc.z,
    {}
    assert((k * k) * a2 == (k * k) * (d.x * d.x) + (k * k) * (d.y * d.y) + (k * k) * (d.z * d.z))
        by (nonlinear_arith)
        requires
            a2 == d.x * d.x + d.y * d.y + d.z * d.z,
    {}
    assert(ss * oc2 == (k * k) * a2);
    assert(oc2 == k * k) by (nonlinear_arith)
        requires
            ss * oc2 == (k * k) * a2,
            a2 == ss,
            ss > 0,
    {}
    assert(SCALE * (d.x * oc.x) == k * (d.x * d.x)) by (nonlinear_arith)
        requires
            SCALE * oc.x == k * d.x,
    {}
    assert(SCALE * (d.y * oc.y) == k * (d.y * d.y)) by (nonlinear_arith)
        requires
            SCALE * oc.y == k * d.y,
    {}
    assert(SCALE * (d.z * oc.z) == k * (d.z * d.z)) by (nonlinear_arith)
        requires
            SCALE * oc.z == k * d.z,
    {}
    assert(SCALE * h2 == SCALE * (d.x * oc.x) + SCALE * (d.y * oc.y) + SCALE * (d.z * oc.z))
        by (nonlinear_arith)
        requires
            h2 == d.x * oc.x + d.y * oc.y + d.z * oc.z,
    {}
    assert(k * a2 == k * (d.x * d.x) + k * (d.y * d.y) + k * (d.z * d.z)) by (nonlinear_arith)
        requires
            a2 == d.x * d.x + d.y * d.y + d.z * d.z,
    {}
    assert(SCALE * h2 == k * a2);
    assert(h2 == k * SCALE) by (nonlinear_arith)
        requires
            SCALE * h2 == k * a2,
            a2 == (SCALE as int) * (SCALE as int),
            SCALE > 0,
    {}

    // The discriminant collapses to (SCALE * r)^2.
    let c2 = oc2 - r * r;
    let disc = h2 * h2 - a2 * c2;
    assert(disc == (SCALE * r) * (SCALE * r)) by (nonlinear_arith)
        requires
            disc == h2 * h2 - a2 * (oc2 - r * r),
            h2 == k * SCALE,
            oc2 == k * k,
            a2 == (SCALE as int) * (SCALE as int),
    {}
    assert(SCALE * r >= 0);
    lemma_sqrt_floor_square(SCALE * r);
    let sq = sqrt_floor(disc);
    assert(sq == SCALE * r);
    assert(disc >= 0) by (nonlinear_arith)
        requires
            disc == (SCALE * r) * (SCALE * r),
    {}

    // The near root is exactly k - r.
    assert((h2 - sq) * SCALE == (k - r) * ss) by (nonlinear_arith)
        requires
            h2 == k * SCALE,
            sq == SCALE * r,
            ss == (SCALE as int) * (SCALE as int),
    {}
    lemma_tdiv_exact(k - r, ss);
    // k is bounded by the scene domain, so nothing saturates.
    lemma_mul_abs_bound(oc.x as int, oc.x as int, 2_100_000_000, 2_100_000_000);
    lemma_mul_abs_bound(oc.y as int, oc.y as int, 2_100_000_000, 2_100_000_000);
    lemma_mul_abs_bound(oc.z as int, oc.z as int, 2_100_000_000, 2_100_000_000);
    assert(oc.x * oc.x >= 0 && oc.y * oc.y >= 0 && oc.z * oc.z >= 0) by (nonlinear_arith);
    assert(k <= 3_700_000_000) by (nonlinear_arith)
        requires
            k * k == oc2,
            oc2 <= 3 * 2_100_000_000 * 2_100_000_000,
            k >= 0,
    {}
    let t1 = clip(tdiv((h2 - sq) * SCALE, a2));
    assert(t1 == k - r);
    assert(tmin < t1 < tmax);

    // The record: the reached point sits exactly r short of the center
    // along the direction, so the outward normal is exactly -D.
    let w_x = (r * d.x) / (SCALE as int);
    let w_y = (r * d.y) / (SCALE as int);
    let w_z = (r * d.z) / (SCALE as int);
    lemma_fundamental_div_mod(r * d.x, SCALE as int);
    lemma_fundamental_div_mod(r * d.y, SCALE as int);
    lemma_fundamental_div_mod(r * d.z, SCALE as int);
    lemma_mul_abs_bound(r, d.x as int, CMAX as int, RMAX as int);
    lemma_mul_abs_bound(r, d.y as int, CMAX as int, RMAX as int);
    lemma_mul_abs_bound(r, d.z as int, CMAX as int, RMAX as int);
    assert(r * d.x == SCALE * w_x && r * d.y == SCALE * w_y && r * d.z == SCALE * w_z);
    assert(-2_000_000_000_000 <= w_x <= 2_000_000_000_000);
    assert(-2_000_000_000_000 <= w_y <= 2_000_000_000_000);
    assert(-2_000_000_000_000 <= w_z <= 2_000_000_000_000);

    let rec = sphere_record_s(s, ray, t1 as i64);
    let scaled = v_scale(t1 as i64, d);
    assert((t1 as int) * d.x == (oc.x - w_x) * SCALE) by (nonlinear_arith)
        requires
            t1 == k - r,
            SCALE * oc.x == k * d.x,
            r * d.x == SCALE * w_x,
    {}
    assert((t1 as int) * d.y == (oc.y - w_y) * SCALE) by (nonlinear_arith)
        requires
            t1 == k - r,
            SCALE * oc.y == k * d.y,
            r * d.y == SCALE * w_y,
    {}
    assert((t1 as int) * d.z == (oc.z - w_z) * SCALE) by (nonlinear_arith)
        requires
            t1 == k - r,
            SCALE * oc.z == k * d.z,
            r * d.z == SCALE * w_z,
    {}
    lemma_tdiv_exact(oc.x - w_x, SCALE as int);
    lemma_tdiv_exact(oc.y - w_y, SCALE as int);
    lemma_tdiv_exact(oc.z - w_z, SCALE as int);
    assert(scaled.x == oc.x - w_x && scaled.y == oc.y - w_y && scaled.z == oc.z - w_z);
    let point = ray_at(ray, t1 as i64);
    assert(point.x == c.x - w_x && point.y == c.y - w_y && point.z == c.z - w_z);
    let op = v_sub(point, c);
    assert(op.x == -w_x && op.y == -w_y && op.z == -w_z);
    assert((-w_x) * SCALE == (-d.x) * r) by (nonlinear_arith)
        requires
            r * d.x == SCALE * w_x,
    {}
    assert((-w_y) * SCALE == (-d.y) * r) by (nonlinear_arith)
        requires
            r * d.y == SCALE * w_y,
    {}
    assert((-w_z) * SCALE == (-d.z) * r) by (nonlinear_arith)
        requires
            r * d.z == SCALE * w_z,
    {}
    lemma_tdiv_exact(-(d.x as int), r);
    lemma_tdiv_exact(-(d.y as int), r);
    lemma_tdiv_exact(-(d.z as int), r);
    let outward = v_div(op, s.radius);
    assert(outward.x == -d.x && outward.y == -d.y && outward.z == -d.z);
    assert(v_dot2(d, outward) == -a2) by (nonlinear_arith)
        requires
            outward.x == -d.x && outward.y == -d.y && outward.z == -d.z,
            a2 == d.x * d.x + d.y * d.y + d.z * d.z,
            v_dot2(d, outward) == d.x * outward.x + d.y * outward.y + d.z * outward.z,
    {}
    assert(rec.front_face == true);
    assert(rec.normal == outward);
    assert(rec.t == k - r);
}

} // verus!
