//! The sampling distributions the renderer draws from.
//!
//! All randomness enters through one trusted draw of raw bits; everything
//! built on it — uniform offsets, uniform vectors, unit vectors — is
//! verified arithmetic over that draw, so each sampler's range contract
//! holds whatever the generator returns.

use crate::fixed::{clip, fits, tdiv, SCALE, VMAX};
use crate::vector::{v_bounded, v_dot, v_dot2, v_neg, v_unit, v_within, Vec3, Vector};
use vstd::prelude::*;

verus! {

/// Negating one argument negates the fixed-point inner product, when the
/// arguments are stored values (so nothing saturates).
proof fn lemma_dot_flip(a: Vec3, b: Vec3)
    requires
        v_within(a, SCALE),
        v_bounded(b),
    ensures
        v_dot(v_neg(a), b) == -v_dot(a, b),
        v_dot(v_neg(a), b) >= 0 <==> v_dot(a, b) <= 0,
{
    let n = v_neg(a);
    assert(n.x == -a.x && n.y == -a.y && n.z == -a.z);
    assert(v_dot2(n, b) == -v_dot2(a, b)) by (nonlinear_arith)
        requires
            n.x == -a.x && n.y == -a.y && n.z == -a.z,
            v_dot2(n, b) == n.x * b.x + n.y * b.y + n.z * b.z,
            v_dot2(a, b) == a.x * b.x + a.y * b.y + a.z * b.z,
    {}
    let q = tdiv(v_dot2(a, b), SCALE as int);
    assert(tdiv(-v_dot2(a, b), SCALE as int) == -q);
    crate::fixed::lemma_mul_abs_bound(a.x as int, b.x as int, SCALE as int, VMAX as int);
    crate::fixed::lemma_mul_abs_bound(a.y as int, b.y as int, SCALE as int, VMAX as int);
    crate::fixed::lemma_mul_abs_bound(a.z as int, b.z as int, SCALE as int, VMAX as int);
    vstd::arithmetic::div_mod::lemma_div_is_ordered(
        if v_dot2(a, b) >= 0 { v_dot2(a, b) } else { -v_dot2(a, b) },
        3 * SCALE * VMAX,
        SCALE as int,
    );
    vstd::arithmetic::div_mod::lemma_div_pos_is_pos(
        if v_dot2(a, b) >= 0 { v_dot2(a, b) } else { -v_dot2(a, b) },
        SCALE as int,
    );
    assert(tdiv(3 * SCALE * VMAX, SCALE as int) <= 3 * VMAX) by {
        vstd::arithmetic::div_mod::lemma_div_multiples_vanish(3 * (VMAX as int), SCALE as int);
    }
}

/// Relies on rand::random::<u64>: one independent draw of raw bits from the
/// thread-local generator; nothing is promised of the value.
#[verifier::external_body]
pub(crate) fn random_u64() -> u64 {
    rand::random::<u64>()
}

/// A uniform draw from `[0, bound)`, for a positive bound.
pub(crate) fn random_below(bound: i64) -> (r: i64)
    requires
        0 < bound,
    ensures
        0 <= r < bound,
{
    let raw: u64 = random_u64();
    (raw % (bound as u64)) as i64
}

/// Uniform jitter offsets over a square `[min, max)` range.
pub struct UniformOffset2D {
    pub min: i64,
    pub max: i64,
}

impl UniformOffset2D {
    pub fn new(min: i64, max: i64) -> (r: UniformOffset2D)
        requires
            min < max,
        ensures
            r == (UniformOffset2D { min, max }),
    {
        UniformOffset2D { min, max }
    }

    /// One offset pair, each coordinate drawn uniformly from `[min, max)`.
    pub fn sample(&self) -> (r: (i64, i64))
        requires
            self.min < self.max,
            fits(self.min),
            fits(self.max),
        ensures
            self.min <= r.0 < self.max,
            self.min <= r.1 < self.max,
    {
        let span: i64 = self.max - self.min;
        let a: i64 = self.min + random_below(span);
        let b: i64 = self.min + random_below(span);
        (a, b)
    }
}

/// Uniform vectors over a cube `[min, max)^3`.
pub struct UniformVec3D {
    pub min: i64,
    pub max: i64,
}

impl UniformVec3D {
    pub fn new(min: i64, max: i64) -> (r: UniformVec3D)
        requires
            min < max,
        ensures
            r == (UniformVec3D { min, max }),
    {
        UniformVec3D { min, max }
    }

    /// One vector, each component drawn uniformly from `[min, max)`.
    pub fn sample(&self) -> (r: Vector)
        requires
            self.min < self.max,
            fits(self.min),
            fits(self.max),
        ensures
            self.min <= r.x < self.max,
            self.min <= r.y < self.max,
            self.min <= r.z < self.max,
    {
        let span: i64 = self.max - self.min;
        Vec3 {
            x: self.min + random_below(span),
            y: self.min + random_below(span),
            z: self.min + random_below(span),
        }
    }
}

/// Directions distributed over the unit sphere, by rejection from the cube.
pub struct UniformUnitVec3D;

impl UniformUnitVec3D {
    /// A unit vector: a nonzero cube sample inside the unit ball,
    /// normalized.  After too many rejections the draw falls back to a
    /// fixed axis, so the function always returns and its contract holds
    /// for every sequence of draws.
    pub fn random_unit_vector() -> (r: Vector)
        ensures
            v_within(r, SCALE),
            exists|v: Vec3| v_dot2(v, v) > 0 && r == v_unit(v),
    {
        let cube: UniformVec3D = UniformVec3D::new(-SCALE, SCALE);
        let mut tries: usize = 64;
        while tries > 0
            invariant
                cube == (UniformVec3D { min: (-SCALE) as i64, max: SCALE }),
            decreases tries,
        {
            let v: Vector = cube.sample();
            proof {
                crate::fixed::lemma_mul_abs_bound(v.x as int, v.x as int, SCALE as int,
                    SCALE as int);
                crate::fixed::lemma_mul_abs_bound(v.y as int, v.y as int, SCALE as int,
                    SCALE as int);
                crate::fixed::lemma_mul_abs_bound(v.z as int, v.z as int, SCALE as int,
                    SCALE as int);
            }
            let n2: i128 = (v.x as i128) * (v.x as i128) + (v.y as i128) * (v.y as i128) + (
            v.z as i128) * (v.z as i128);
            if 0 < n2 && n2 <= (SCALE as i128) * (SCALE as i128) {
                let u: Vector = v.normalize();
                proof {
                    assert(v_dot2(v, v) > 0 && u == v_unit(v));
                }
                return u;
            }
            tries = tries - 1;
        }
        let axis: Vector = Vec3 { x: 0, y: 0, z: SCALE };
        proof {
            assert(v_dot2(axis, axis) == (SCALE as int) * (SCALE as int));
        }
        let u: Vector = axis.normalize();
        proof {
            assert(v_dot2(axis, axis) > 0 && u == v_unit(axis));
        }
        u
    }

    /// A unit vector on the hemisphere around `normal`: the unit draw,
    /// flipped if it points against the normal, so the result never
    /// opposes the normal.
    pub fn random_on_hemisphere(normal: &Vector) -> (r: Vector)
        requires
            crate::vector::v_bounded(*normal),
        ensures
            v_within(r, SCALE),
            v_dot(r, *normal) >= 0,
            exists|v: Vec3|
                v_dot2(v, v) > 0 && (r == v_unit(v) || r == v_neg(v_unit(v))),
    {
        let unit: Vector = Self::random_unit_vector();
        let d: i64 = normal.dot(unit);
        let r: Vector = if d > 0 {
            unit
        } else {
            unit.vneg()
        };
        proof {
            let v = choose|v: Vec3| v_dot2(v, v) > 0 && unit == v_unit(v);
            assert(v_dot2(v, v) > 0 && (r == v_unit(v) || r == v_neg(v_unit(v))));
            lemma_dot_flip(unit, *normal);
            assert(v_dot2(unit, *normal) == v_dot2(*normal, unit)) by (nonlinear_arith);
        }
        r
    }
}

} // verus!
