//! The camera: viewport derivation, per-sample ray generation, the
//! recursive radiance estimator, and the per-pixel sampling driver.
//!
//! Angles enter as tangents of half-angles (already fixed-point), so the
//! whole derivation is closed arithmetic.  The estimator guards each bounce:
//! a ray that leaves the intersectable domain, or whose direction cancels to
//! zero, contributes black rather than undefined arithmetic.

use crate::color::{black_s, bytes_s, color_unit, Color};
use crate::distribution::UniformOffset2D;
use crate::fixed::{
    clip, clip_i128, div_trunc_i128, fadd, fadd_s, fdiv, fdiv_s, fits, fmul, fmul_s, fsub, fsub_s,
    lemma_fmul_unit_range, lemma_tdiv_le, tdiv, SCALE, VMAX,
};
use crate::hittable::{list_hit_s, list_wf, ray_dom, sphere_hit_s, HitRecord, HittableList, RMAX};
use crate::interval::Interval;
use crate::material::{attenuate_s, material_scatter_s, white_s, Material};
use crate::ray::Ray;
use crate::vector::{
    lemma_near_zero_dot2, v_add, v_bounded, v_cross, v_divn, v_dot2, v_near_zero, v_neg, v_scale,
    v_sub, v_unit, v_within, Point, Vec3, Vector,
};
use vstd::arithmetic::div_mod::{lemma_div_multiples_vanish, lemma_div_of0, lemma_div_pos_is_pos};
use vstd::prelude::*;

verus! {

/// Largest image dimension the driver accepts.
pub const MAX_DIM: i64 = 20_000;

/// Largest per-pixel sample count the driver accepts.
pub const MAX_SAMPLES: i64 = 1_000_000;

/// The derived, immutable camera configuration.
pub struct Camera {
    pub image_width: i64,
    pub image_height: i64,
    pub camera_center: Point,
    pub pixel_delta_u: Vector,
    pub pixel_delta_v: Vector,
    pub pixel_00_pos: Point,
    /// Tangent of half the defocus cone angle; nonpositive disables
    /// depth-of-field.
    pub defocus_angle: i64,
    pub defocus_disk_u: Vector,
    pub defocus_disk_v: Vector,
    pub samples_per_pixel: i64,
    pub max_depth: i64,
}

/// A camera the driver can render with.
pub open spec fn camera_wf(c: Camera) -> bool {
    &&& 1 <= c.image_width <= MAX_DIM
    &&& 1 <= c.image_height <= MAX_DIM
    &&& v_bounded(c.camera_center)
    &&& v_bounded(c.pixel_delta_u)
    &&& v_bounded(c.pixel_delta_v)
    &&& v_bounded(c.pixel_00_pos)
    &&& fits(c.defocus_angle)
    &&& v_bounded(c.defocus_disk_u)
    &&& v_bounded(c.defocus_disk_v)
    &&& 1 <= c.samples_per_pixel <= MAX_SAMPLES
    &&& 0 <= c.max_depth
}

/// The image height derived from width and aspect ratio, floored to one.
pub open spec fn camera_height_s(image_width: i64, aspect_ratio: i64) -> i64
    recommends
        aspect_ratio > 0,
{
    let h = clip(tdiv(image_width * SCALE, aspect_ratio as int));
    if h < 1 {
        1
    } else {
        h
    }
}

/// The whole camera derivation, as the constructor computes it.
pub open spec fn camera_s(
    image_width: i64,
    aspect_ratio: i64,
    tan_half_vfov: i64,
    look_from: Point,
    look_at: Point,
    vup: Vector,
    tan_half_defocus: i64,
    focus_dist: i64,
    samples_per_pixel: i64,
    max_depth: i64,
) -> Camera {
    let image_height = camera_height_s(image_width, aspect_ratio);
    let viewport_height = fmul_s(fmul_s((2 * SCALE) as i64, tan_half_vfov), focus_dist);
    let ratio = fdiv_s((image_width * SCALE) as i64, (image_height * SCALE) as i64);
    let viewport_width = fmul_s(viewport_height, ratio);
    let w = v_unit(v_sub(look_from, look_at));
    let u = v_unit(v_cross(vup, w));
    let v = v_cross(w, u);
    let viewport_u = v_scale(viewport_width, u);
    let viewport_v = v_scale(viewport_height, v_neg(v));
    let pixel_delta_u = v_divn(viewport_u, image_width);
    let pixel_delta_v = v_divn(viewport_v, image_height);
    let viewport_upper_left = v_sub(
        v_sub(v_sub(look_from, v_scale(focus_dist, w)), v_divn(viewport_u, 2)),
        v_divn(viewport_v, 2),
    );
    let pixel_00_pos = v_add(viewport_upper_left, v_divn(v_add(pixel_delta_u, pixel_delta_v), 2));
    let defocus_radius = fmul_s(tan_half_defocus, focus_dist);
    Camera {
        image_width,
        image_height,
        camera_center: look_from,
        pixel_delta_u,
        pixel_delta_v,
        pixel_00_pos,
        defocus_angle: tan_half_defocus,
        defocus_disk_u: v_scale(defocus_radius, u),
        defocus_disk_v: v_scale(defocus_radius, v),
        samples_per_pixel,
        max_depth,
    }
}

/// The ray cast for pixel `(i, j)` with jitter `off` and defocus-disk draw
/// `disk`.  The stored origin is always the undisplaced camera center; the
/// defocus offset enters only through the direction.
pub open spec fn get_ray_s(cam: Camera, i: i64, j: i64, off: (i64, i64), disk: (i64, i64)) -> Ray {
    let s1 = fadd_s((i * SCALE) as i64, off.0);
    let s2 = fadd_s((j * SCALE) as i64, off.1);
    let pc = v_add(
        v_add(cam.pixel_00_pos, v_scale(s1, cam.pixel_delta_u)),
        v_scale(s2, cam.pixel_delta_v),
    );
    let origin = if cam.defocus_angle <= 0 {
        cam.camera_center
    } else {
        v_add(
            v_add(cam.camera_center, v_scale(disk.0, cam.defocus_disk_u)),
            v_scale(disk.1, cam.defocus_disk_v),
        )
    };
    Ray { origin: cam.camera_center, direction: v_sub(pc, origin) }
}

/// The zenith color of the sky gradient.
pub open spec fn sky_zenith_s() -> Color {
    Vec3 { x: 50_000, y: 70_000, z: 100_000 }
}

/// The sky gradient as a function of a unit direction alone: white at the
/// horizon blending to pale blue at the zenith.
pub open spec fn sky_of_unit(u: Vec3) -> Color {
    let a = clip(tdiv(fadd_s(u.y, SCALE) as int, 2));
    v_add(v_scale(fsub_s(SCALE, a), white_s()), v_scale(a, sky_zenith_s()))
}

/// The sky color of a ray: a pure function of its normalized direction.
pub open spec fn sky_s(ray: Ray) -> Color {
    sky_of_unit(v_unit(ray.direction))
}

/// Two rays with the same normalized direction see the same sky, whatever
/// their origins.
pub proof fn lemma_sky_pure(r1: Ray, r2: Ray)
    requires
        v_unit(r1.direction) == v_unit(r2.direction),
    ensures
        sky_s(r1) == sky_s(r2),
{
}

/// A byte triple that came out of the output pipeline: the bytes of some
/// estimate with channels in `[0, 1]`.
pub open spec fn pixel_finalized(p: (u8, u8, u8)) -> bool {
    exists|c: Color| color_unit(c) && p == bytes_s(c)
}

/// A ray the estimator can intersect and shade: within the domain, with a
/// direction that has not cancelled to zero.
pub open spec fn ray_ok(r: Ray) -> bool {
    ray_dom(r) && !v_near_zero(r.direction)
}

/// A defocus draw: a point of the closed unit disk.
pub open spec fn disk_draw(d: (i64, i64)) -> bool {
    -SCALE <= d.0 <= SCALE && -SCALE <= d.1 <= SCALE && d.0 * d.0 + d.1 * d.1 <= SCALE * SCALE
}

/// A jitter draw: each offset in `[-0.5, 0.5)`.
pub open spec fn jitter_draw(off: (i64, i64)) -> bool {
    -50_000 <= off.0 < 50_000 && -50_000 <= off.1 < 50_000
}

/// On a hit, the estimate is what one scattering of the hit's material can
/// account for: for some admissible draws, either that scattering absorbs
/// and the estimate is black, or the estimate is exactly the scattering's
/// attenuation darkening a bounce estimate in `[0, 1]` -- in particular it
/// never exceeds the attenuation the material can produce.
pub open spec fn scatter_outcome(
    c: Color,
    rec: HitRecord,
    ray: Ray,
    world: HittableList,
    time: Interval,
    depth: i64,
) -> bool {
    exists|unit: Vec3, draw: i64|
        #![trigger material_scatter_s(rec.material, ray, rec, unit, draw)]
        v_within(unit, SCALE) && 0 <= draw < SCALE && (match material_scatter_s(
            rec.material,
            ray,
            rec,
            unit,
            draw,
        ) {
            None => c == black_s(),
            Some(sc) => exists|bounce: Color|
                color_unit(bounce) && c == attenuate_s(sc.attenuation, bounce),
        })
}

/// Everything the radiance estimator guarantees of one estimate `c` for a
/// ray at a given depth, whatever the draws inside the scattering decided.
pub open spec fn estimate_of_ray(
    c: Color,
    ray: Ray,
    world: HittableList,
    time: Interval,
    depth: i64,
) -> bool {
    &&& color_unit(c)
    &&& depth <= 0 ==> c == black_s()
    &&& depth > 0 && !ray_ok(ray) ==> c == black_s()
    &&& depth > 0 && ray_ok(ray) && list_hit_s(world, ray, time.min, time.max) is None ==> c
        == sky_s(ray)
    &&& depth == 1 && ray_ok(ray) && list_hit_s(world, ray, time.min, time.max) is Some ==> c
        == black_s()
    &&& depth == 1 ==> c == black_s() || c == sky_s(ray)
    &&& depth > 0 && ray_ok(ray) ==> (list_hit_s(world, ray, time.min, time.max) matches Some(rec)
        ==> scatter_outcome(c, rec, ray, world, time, depth))
}

/// One genuine per-sample estimate for pixel `(i, j)`: the estimator's
/// guarantees hold of it for the ray of some jitter and defocus draw.
pub open spec fn estimator_outcome(
    c: Color,
    cam: Camera,
    world: HittableList,
    time: Interval,
    i: i64,
    j: i64,
) -> bool {
    exists|off: (i64, i64), disk: (i64, i64)|
        jitter_draw(off) && disk_draw(disk) && estimate_of_ray(
            c,
            #[trigger] get_ray_s(cam, i, j, off, disk),
            world,
            time,
            cam.max_depth,
        )
}

/// The per-channel exact sum of a sequence of estimates.
pub open spec fn sample_sum(samples: Seq<Color>) -> (int, int, int)
    decreases samples.len(),
{
    if samples.len() == 0 {
        (0int, 0int, 0int)
    } else {
        let rest = sample_sum(samples.drop_last());
        (rest.0 + samples.last().x, rest.1 + samples.last().y, rest.2 + samples.last().z)
    }
}

/// The average of a sequence of estimates, truncated per channel.
pub open spec fn sample_average(samples: Seq<Color>, n: i64) -> Color
    recommends
        n > 0,
{
    let sum = sample_sum(samples);
    Vec3 {
        x: clip(tdiv(sum.0, n as int)),
        y: clip(tdiv(sum.1, n as int)),
        z: clip(tdiv(sum.2, n as int)),
    }
}

/// A genuinely rendered pixel for `(i, j)`: the output pipeline applied to
/// the average of `samples_per_pixel` genuine per-sample estimates.
pub open spec fn pixel_rendered(
    px: (u8, u8, u8),
    cam: Camera,
    world: HittableList,
    time: Interval,
    i: i64,
    j: i64,
) -> bool {
    exists|samples: Seq<Color>|
        samples.len() == cam.samples_per_pixel && (forall|t: int|
            0 <= t < samples.len() ==> estimator_outcome(
                #[trigger] samples[t],
                cam,
                world,
                time,
                i,
                j,
            )) && px == bytes_s(sample_average(samples, cam.samples_per_pixel))
}

/// Exact test of `ray_ok`.
fn ray_ok_exec(ray: &Ray) -> (b: bool)
    ensures
        b == ray_ok(*ray),
{
    let o: Point = ray.origin;
    let d: Vector = ray.direction;
    -RMAX <= o.x && o.x <= RMAX && -RMAX <= o.y && o.y <= RMAX && -RMAX <= o.z && o.z <= RMAX
        && -RMAX <= d.x && d.x <= RMAX && -RMAX <= d.y && d.y <= RMAX && -RMAX <= d.z && d.z
        <= RMAX && !(d.x == 0 && d.y == 0 && d.z == 0)
}

/// A defocus-disk draw: a point of the unit disk, by rejection from the
/// square, falling back to the disk center after too many rejections.
fn random_in_unit_disk() -> (r: (i64, i64))
    ensures
        disk_draw(r),
{
    let square: UniformOffset2D = UniformOffset2D::new(-SCALE, SCALE);
    let mut tries: usize = 64;
    while tries > 0
        invariant
            square == (UniformOffset2D { min: (-SCALE) as i64, max: SCALE }),
        decreases tries,
    {
        let p: (i64, i64) = square.sample();
        proof {
            crate::fixed::lemma_mul_abs_bound(p.0 as int, p.0 as int, SCALE as int, SCALE as int);
            crate::fixed::lemma_mul_abs_bound(p.1 as int, p.1 as int, SCALE as int, SCALE as int);
        }
        let n2: i128 = (p.0 as i128) * (p.0 as i128) + (p.1 as i128) * (p.1 as i128);
        if 0 < n2 && n2 <= (SCALE as i128) * (SCALE as i128) {
            proof {
                assert(p.0 * p.0 + p.1 * p.1 <= SCALE * SCALE);
            }
            return p;
        }
        tries = tries - 1;
    }
    (0, 0)
}

impl Camera {
    pub fn new(
        image_width: i64,
        aspect_ratio: i64,
        tan_half_vfov: i64,
        look_from: Point,
        look_at: Point,
        vup: Vector,
        tan_half_defocus: i64,
        focus_dist: i64,
        samples_per_pixel: i64,
        max_depth: i64,
    ) -> (r: Camera)
        requires
            1 <= image_width <= MAX_DIM,
            0 < aspect_ratio <= VMAX,
            camera_height_s(image_width, aspect_ratio) <= MAX_DIM,
            fits(tan_half_vfov),
            v_bounded(look_from),
            v_bounded(look_at),
            v_bounded(vup),
            fits(tan_half_defocus),
            fits(focus_dist),
            v_dot2(v_sub(look_from, look_at), v_sub(look_from, look_at)) > 0,
            v_dot2(
                v_cross(vup, v_unit(v_sub(look_from, look_at))),
                v_cross(vup, v_unit(v_sub(look_from, look_at))),
            ) > 0,
            1 <= samples_per_pixel <= MAX_SAMPLES,
            0 <= max_depth,
        ensures
            r == camera_s(
                image_width,
                aspect_ratio,
                tan_half_vfov,
                look_from,
                look_at,
                vup,
                tan_half_defocus,
                focus_dist,
                samples_per_pixel,
                max_depth,
            ),
            camera_wf(r),
    {
        let image_height: i64 = {
            let h: i64 = clip_i128(
                div_trunc_i128((image_width as i128) * (SCALE as i128), aspect_ratio as i128),
            );
            if h < 1 {
                1
            } else {
                h
            }
        };
        let viewport_height: i64 = fmul(fmul(2 * SCALE, tan_half_vfov), focus_dist);
        let ratio: i64 = fdiv(image_width * SCALE, image_height * SCALE);
        let viewport_width: i64 = fmul(viewport_height, ratio);
        let w: Vector = look_from.vsub(look_at).normalize();
        let u: Vector = vup.cross(w).normalize();
        let v: Vector = w.cross(u);
        let viewport_u: Vector = u.scale(viewport_width);
        let viewport_v: Vector = v.vneg().scale(viewport_height);
        let pixel_delta_u: Vector = viewport_u.vdivn(image_width);
        let pixel_delta_v: Vector = viewport_v.vdivn(image_height);
        let viewport_upper_left: Point = look_from.vsub(w.scale(focus_dist)).vsub(
            viewport_u.vdivn(2),
        ).vsub(viewport_v.vdivn(2));
        let pixel_00_pos: Point = viewport_upper_left.vadd(
            pixel_delta_u.vadd(pixel_delta_v).vdivn(2),
        );
        let defocus_radius: i64 = fmul(tan_half_defocus, focus_dist);
        let defocus_disk_u: Vector = u.scale(defocus_radius);
        let defocus_disk_v: Vector = v.scale(defocus_radius);
        Camera {
            image_width,
            image_height,
            camera_center: look_from,
            pixel_delta_u,
            pixel_delta_v,
            pixel_00_pos,
            defocus_angle: tan_half_defocus,
            defocus_disk_u,
            defocus_disk_v,
            samples_per_pixel,
            max_depth,
        }
    }

    /// One jittered ray for pixel `(i, j)`.  The defocus-disk draw is
    /// random, so the result is pinned up to it; with depth-of-field
    /// disabled the ray is fully determined.
    pub fn get_ray(&self, i: i64, j: i64, offset: (i64, i64)) -> (r: Ray)
        requires
            camera_wf(*self),
            0 <= i < self.image_width,
            0 <= j < self.image_height,
            -SCALE <= offset.0 <= SCALE,
            -SCALE <= offset.1 <= SCALE,
        ensures
            exists|disk: (i64, i64)| disk_draw(disk) && r == get_ray_s(*self, i, j, offset, disk),
            self.defocus_angle <= 0 ==> r == get_ray_s(*self, i, j, offset, (0i64, 0i64)),
            r.origin == self.camera_center,
            v_bounded(r.direction),
    {
        let s1: i64 = fadd(i * SCALE, offset.0);
        let s2: i64 = fadd(j * SCALE, offset.1);
        let pc: Point = self.pixel_00_pos.vadd(self.pixel_delta_u.scale(s1)).vadd(
            self.pixel_delta_v.scale(s2),
        );
        if self.defocus_angle <= 0 {
            let dir: Vector = pc.vsub(self.camera_center);
            let r: Ray = Ray { origin: self.camera_center, direction: dir };
            proof {
                assert(disk_draw((0i64, 0i64)) && r == get_ray_s(*self, i, j, offset, (0i64, 0i64)));
            }
            r
        } else {
            let dsk: (i64, i64) = random_in_unit_disk();
            let origin: Point = self.camera_center.vadd(self.defocus_disk_u.scale(dsk.0)).vadd(
                self.defocus_disk_v.scale(dsk.1),
            );
            let dir: Vector = pc.vsub(origin);
            let r: Ray = Ray { origin: self.camera_center, direction: dir };
            proof {
                assert(disk_draw(dsk) && r == get_ray_s(*self, i, j, offset, dsk));
            }
            r
        }
    }

    /// The sky gradient a missed ray sees.
    pub fn sky_box(ray: &Ray) -> (c: Color)
        requires
            v_bounded(ray.direction),
            v_dot2(ray.direction, ray.direction) > 0,
        ensures
            c == sky_s(*ray),
            color_unit(c),
    {
        let unit: Vector = ray.direction.normalize();
        let a: i64 = clip_i128(div_trunc_i128(fadd(unit.y, SCALE) as i128, 2));
        proof {
            lemma_div_pos_is_pos(fadd_s(unit.y, SCALE) as int, 2);
            lemma_tdiv_le(fadd_s(unit.y, SCALE) as int, 2 * SCALE, 2);
            assert(tdiv(2 * SCALE, 2) == SCALE);
            lemma_fmul_unit_range(fsub_s(SCALE, a), SCALE);
            lemma_fmul_unit_range(a, 50_000);
            lemma_fmul_unit_range(a, 70_000);
            lemma_fmul_unit_range(a, 100_000);
        }
        let white: Color = Vec3 { x: SCALE, y: SCALE, z: SCALE };
        let zenith: Color = Vec3 { x: 50_000, y: 70_000, z: 100_000 };
        white.scale(fsub(SCALE, a)).vadd(zenith.scale(a))
    }

    /// The recursive radiance estimator.  Whatever the draws inside the
    /// scattering decide, the estimate stays in `[0, 1]` per channel; depth
    /// zero is black; a miss is exactly the sky; at depth one every
    /// estimate is either black (something was hit, and the single bounce
    /// can gather nothing) or the sky; and on any hit the estimate is a
    /// scattering of the hit's material darkening a bounce estimate
    /// (`estimate_of_ray` gathers all of this).
    pub fn test_colorizer(ray: &Ray, world: &HittableList, time: Interval, depth: i64) -> (c:
        Color)
        requires
            list_wf(*world),
        ensures
            estimate_of_ray(c, *ray, *world, time, depth),
        decreases depth,
    {
        if depth <= 0 {
            return Vec3 { x: 0, y: 0, z: 0 };
        }
        if !ray_ok_exec(ray) {
            return Vec3 { x: 0, y: 0, z: 0 };
        }
        proof {
            lemma_near_zero_dot2(ray.direction);
        }
        let hit: Option<crate::hittable::HitRecord> = world.hit(ray, time);
        match hit {
            None => Self::sky_box(ray),
            Some(rec) => {
                proof {
                    let i = choose|i: int|
                        0 <= i < world.objects@.len() && sphere_hit_s(
                            world.objects@[i],
                            *ray,
                            time.min,
                            time.max,
                        ) == Some(rec);
                    crate::hittable::lemma_sphere_hit_wf(
                        world.objects@[i],
                        *ray,
                        time.min,
                        time.max,
                    );
                    lemma_near_zero_dot2(ray.direction);
                }
                let m: Material = rec.material();
                let scattered: Option<crate::material::Scattering> = m.scatter(ray, &rec);
                proof {
                    let (unit, draw) = choose|unit: Vec3, draw: i64|
                        v_within(unit, SCALE) && 0 <= draw < SCALE && scattered
                            == material_scatter_s(m, *ray, rec, unit, draw);
                    assert(v_within(unit, SCALE) && 0 <= draw < SCALE && scattered
                        == material_scatter_s(rec.material, *ray, rec, unit, draw));
                }
                match scattered {
                    None => {
                        let c: Color = Vec3 { x: 0, y: 0, z: 0 };
                        proof {
                            assert(scatter_outcome(c, rec, *ray, *world, time, depth));
                        }
                        c
                    },
                    Some(sc) => {
                        let bounce: Color = Self::test_colorizer(&sc.ray, world, time, depth - 1);
                        proof {
                            lemma_fmul_unit_range(sc.attenuation.x, bounce.x);
                            lemma_fmul_unit_range(sc.attenuation.y, bounce.y);
                            lemma_fmul_unit_range(sc.attenuation.z, bounce.z);
                        }
                        let c: Color = Vec3 {
                            x: fmul(sc.attenuation.x, bounce.x),
                            y: fmul(sc.attenuation.y, bounce.y),
                            z: fmul(sc.attenuation.z, bounce.z),
                        };
                        proof {
                            assert(c == attenuate_s(sc.attenuation, bounce));
                            assert(scatter_outcome(c, rec, *ray, *world, time, depth));
                        }
                        c
                    },
                }
            },
        }
    }

    /// The color of one pixel: the average of `samples_per_pixel`
    /// genuine estimates -- each one the estimator's outcome for the ray
    /// of some jitter and defocus draw -- sent through the output
    /// pipeline.  With depth zero the pixel is exactly black.
    pub fn render_pixel(&self, world: &HittableList, time: Interval, i: i64, j: i64) -> (px: (
        u8,
        u8,
        u8,
    ))
        requires
            camera_wf(*self),
            list_wf(*world),
            0 <= i < self.image_width,
            0 <= j < self.image_height,
        ensures
            self.max_depth == 0 ==> px == (0u8, 0u8, 0u8),
            pixel_finalized(px),
            pixel_rendered(px, *self, *world, time, i, j),
    {
        let offsets: UniformOffset2D = UniformOffset2D::new(-50_000, 50_000);
        let spp: i64 = self.samples_per_pixel;
        let mut acc: Color = Vec3 { x: 0, y: 0, z: 0 };
        let mut s: i64 = 0;
        let ghost mut samples: Seq<Color> = Seq::empty();
        while s < spp
            invariant
                camera_wf(*self),
                list_wf(*world),
                0 <= i < self.image_width,
                0 <= j < self.image_height,
                spp == self.samples_per_pixel,
                offsets == (UniformOffset2D { min: -50_000i64, max: 50_000i64 }),
                0 <= s <= spp,
                0 <= acc.x <= s * SCALE,
                0 <= acc.y <= s * SCALE,
                0 <= acc.z <= s * SCALE,
                self.max_depth == 0 ==> acc == black_s(),
                samples.len() == s,
                acc.x == sample_sum(samples).0,
                acc.y == sample_sum(samples).1,
                acc.z == sample_sum(samples).2,
                forall|t: int|
                    0 <= t < samples.len() ==> estimator_outcome(
                        #[trigger] samples[t],
                        *self,
                        *world,
                        time,
                        i,
                        j,
                    ),
            decreases spp - s,
        {
            let off: (i64, i64) = offsets.sample();
            let ray: Ray = self.get_ray(i, j, off);
            let c: Color = Self::test_colorizer(&ray, world, time, self.max_depth);
            proof {
                let disk = choose|disk: (i64, i64)|
                    disk_draw(disk) && ray == get_ray_s(*self, i, j, off, disk);
                assert(jitter_draw(off) && disk_draw(disk) && estimate_of_ray(
                    c,
                    get_ray_s(*self, i, j, off, disk),
                    *world,
                    time,
                    self.max_depth,
                ));
                assert(estimator_outcome(c, *self, *world, time, i, j));
                let prev = samples;
                samples = samples.push(c);
                assert(samples.drop_last() =~= prev);
                assert(samples.last() == c);
            }
            acc = Vec3 { x: acc.x + c.x, y: acc.y + c.y, z: acc.z + c.z };
            s = s + 1;
        }
        proof {
            assert(spp * SCALE <= MAX_SAMPLES * SCALE) by (nonlinear_arith)
                requires
                    1 <= spp <= MAX_SAMPLES,
            {}
            lemma_div_pos_is_pos(acc.x as int, spp as int);
            lemma_div_pos_is_pos(acc.y as int, spp as int);
            lemma_div_pos_is_pos(acc.z as int, spp as int);
            lemma_tdiv_le(acc.x as int, spp * SCALE, spp as int);
            lemma_tdiv_le(acc.y as int, spp * SCALE, spp as int);
            lemma_tdiv_le(acc.z as int, spp * SCALE, spp as int);
            lemma_div_multiples_vanish(SCALE as int, spp as int);
            assert(spp * SCALE == SCALE * spp) by (nonlinear_arith);
            if self.max_depth == 0 {
                lemma_div_of0(spp as int);
                crate::color::lemma_black_bytes();
            }
        }
        let avg: Color = acc.vdivn(spp);
        let px: (u8, u8, u8) = avg.bytes();
        proof {
            assert(color_unit(avg) && px == bytes_s(avg));
            assert(pixel_finalized(px));
            assert(avg == sample_average(samples, spp));
            assert(samples.len() == self.samples_per_pixel && (forall|t: int|
                0 <= t < samples.len() ==> estimator_outcome(
                    #[trigger] samples[t],
                    *self,
                    *world,
                    time,
                    i,
                    j,
                )) && px == bytes_s(sample_average(samples, self.samples_per_pixel)));
            assert(pixel_rendered(px, *self, *world, time, i, j));
        }
        px
    }

    /// Render the whole image, row-major from the top-left pixel: entry
    /// `k` is the genuinely rendered pixel of column `k % width` in row
    /// `k / width`, the average of its own per-sample estimates through
    /// the output pipeline.  With depth zero the image is entirely black.
    pub fn render(&self, world: &HittableList, time: Interval) -> (pixels: Vec<(u8, u8, u8)>)
        requires
            camera_wf(*self),
            list_wf(*world),
        ensures
            pixels@.len() == self.image_height * self.image_width,
            self.max_depth == 0 ==> forall|k: int|
                0 <= k < pixels@.len() ==> pixels@[k] == (0u8, 0u8, 0u8),
            forall|k: int| 0 <= k < pixels@.len() ==> pixel_finalized(#[trigger] pixels@[k]),
            forall|k: int|
                0 <= k < pixels@.len() ==> pixel_rendered(
                    #[trigger] pixels@[k],
                    *self,
                    *world,
                    time,
                    (k % (self.image_width as int)) as i64,
                    (k / (self.image_width as int)) as i64,
                ),
    {
        let w: i64 = self.image_width;
        let h: i64 = self.image_height;
        let mut pixels: Vec<(u8, u8, u8)> = Vec::new();
        let mut j: i64 = 0;
        while j < h
            invariant
                camera_wf(*self),
                list_wf(*world),
                w == self.image_width,
                h == self.image_height,
                0 <= j <= h,
                pixels@.len() == j * w,
                self.max_depth == 0 ==> forall|k: int|
                    0 <= k < pixels@.len() ==> pixels@[k] == (0u8, 0u8, 0u8),
                forall|k: int| 0 <= k < pixels@.len() ==> pixel_finalized(#[trigger] pixels@[k]),
                forall|k: int|
                    0 <= k < pixels@.len() ==> pixel_rendered(
                        #[trigger] pixels@[k],
                        *self,
                        *world,
                        time,
                        (k % (w as int)) as i64,
                        (k / (w as int)) as i64,
                    ),
            decreases h - j,
        {
            let mut i: i64 = 0;
            while i < w
                invariant
                    camera_wf(*self),
                    list_wf(*world),
                    w == self.image_width,
                    h == self.image_height,
                    0 <= j < h,
                    0 <= i <= w,
                    pixels@.len() == j * w + i,
                    self.max_depth == 0 ==> forall|k: int|
                        0 <= k < pixels@.len() ==> pixels@[k] == (0u8, 0u8, 0u8),
                    forall|k: int|
                        0 <= k < pixels@.len() ==> pixel_finalized(#[trigger] pixels@[k]),
                    forall|k: int|
                        0 <= k < pixels@.len() ==> pixel_rendered(
                            #[trigger] pixels@[k],
                            *self,
                            *world,
                            time,
                            (k % (w as int)) as i64,
                            (k / (w as int)) as i64,
                        ),
                decreases w - i,
            {
                let px: (u8, u8, u8) = self.render_pixel(world, time, i, j);
                let ghost prev = pixels@;
                pixels.push(px);
                proof {
                    vstd::arithmetic::div_mod::lemma_fundamental_div_mod_converse(
                        j * w + i,
                        w as int,
                        j as int,
                        i as int,
                    );
                    assert forall|k: int| 0 <= k < pixels@.len() implies pixel_finalized(
                        #[trigger] pixels@[k],
                    ) by {
                        if k < prev.len() {
                            assert(pixels@[k] == prev[k]);
                        } else {
                            assert(pixels@[k] == px);
                        }
                    }
                    assert forall|k: int| 0 <= k < pixels@.len() implies pixel_rendered(
                        #[trigger] pixels@[k],
                        *self,
                        *world,
                        time,
                        (k % (w as int)) as i64,
                        (k / (w as int)) as i64,
                    ) by {
                        if k < prev.len() {
                            assert(pixels@[k] == prev[k]);
                        } else {
                            assert(pixels@[k] == px);
                            assert(k % (w as int) == i as int && k / (w as int) == j as int);
                        }
                    }
                    if self.max_depth == 0 {
                        assert forall|k: int| 0 <= k < pixels@.len() implies pixels@[k] == (
                        0u8,
                        0u8,
                        0u8,
                        ) by {
                            if k < prev.len() {
                                assert(pixels@[k] == prev[k]);
                            } else {
                                assert(pixels@[k] == px);
                            }
                        }
                    }
                }
                i = i + 1;
            }
            proof {
                assert(j * w + w == (j + 1) * w) by (nonlinear_arith);
            }
            j = j + 1;
        }
        pixels
    }
}

} // verus!
