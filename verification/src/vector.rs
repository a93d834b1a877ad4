//! Three-component vector and point algebra over fixed-point scalars.
//!
//! `Point` marks a position and `Vector` a displacement; both share the
//! algebra of `Vec3`.  Each executable operation returns exactly what its
//! spec-function counterpart states, so contracts further up speak of the
//! algebra by name.

use crate::fixed::{
    clip, clip_i128, div_trunc_i128, fadd, fadd_s, fits, fmul, fmul_s, fsqrt, fsqrt_s, fsub,
    fdiv, fdiv_s, fdivn, fdivn_s, fsub_s, isqrt_u128, lemma_mul_abs_bound, lemma_sqrt_floor, lemma_sqrt_floor_le, sqrt_floor,
    tdiv, SCALE, VMAX,
};
use vstd::arithmetic::div_mod::*;
use vstd::prelude::*;

verus! {

#[derive(Clone, Copy, PartialEq, Eq, Structural, Debug)]
pub struct Vec3 {
    pub x: i64,
    pub y: i64,
    pub z: i64,
}

pub type Point = Vec3;

pub type Vector = Vec3;

/// All three components lie in the stored range.
pub open spec fn v_bounded(v: Vec3) -> bool {
    fits(v.x) && fits(v.y) && fits(v.z)
}

pub open spec fn v_add(a: Vec3, b: Vec3) -> Vec3 {
    Vec3 { x: fadd_s(a.x, b.x), y: fadd_s(a.y, b.y), z: fadd_s(a.z, b.z) }
}

pub open spec fn v_sub(a: Vec3, b: Vec3) -> Vec3 {
    Vec3 { x: fsub_s(a.x, b.x), y: fsub_s(a.y, b.y), z: fsub_s(a.z, b.z) }
}

pub open spec fn v_neg(a: Vec3) -> Vec3 {
    Vec3 { x: fsub_s(0, a.x), y: fsub_s(0, a.y), z: fsub_s(0, a.z) }
}

/// Scalar multiple `k * v` of a vector.
pub open spec fn v_scale(k: i64, a: Vec3) -> Vec3 {
    Vec3 { x: fmul_s(k, a.x), y: fmul_s(k, a.y), z: fmul_s(k, a.z) }
}

/// The exact inner product of the raw components, at twice the scale.
pub open spec fn v_dot2(a: Vec3, b: Vec3) -> int {
    a.x * b.x + a.y * b.y + a.z * b.z
}

/// The fixed-point inner product: the exact one rescaled once.
pub open spec fn v_dot(a: Vec3, b: Vec3) -> i64 {
    clip(tdiv(v_dot2(a, b), SCALE as int))
}

pub open spec fn v_cross(a: Vec3, b: Vec3) -> Vec3 {
    Vec3 {
        x: fsub_s(fmul_s(a.y, b.z), fmul_s(a.z, b.y)),
        y: fsub_s(fmul_s(a.z, b.x), fmul_s(a.x, b.z)),
        z: fsub_s(fmul_s(a.x, b.y), fmul_s(a.y, b.x)),
    }
}

/// The Euclidean norm: square root of the exact squared norm.
pub open spec fn v_norm(a: Vec3) -> i64 {
    clip(sqrt_floor(v_dot2(a, a)))
}

/// The unit vector of `a`: each component divided by the norm.
pub open spec fn v_unit(a: Vec3) -> Vec3
    recommends
        v_dot2(a, a) > 0,
{
    let n = sqrt_floor(v_dot2(a, a));
    Vec3 {
        x: clip(tdiv(a.x * SCALE, n)),
        y: clip(tdiv(a.y * SCALE, n)),
        z: clip(tdiv(a.z * SCALE, n)),
    }
}

/// Division of a vector by a positive scalar.
pub open spec fn v_div(a: Vec3, k: i64) -> Vec3
    recommends
        k > 0,
{
    Vec3 {
        x: clip(tdiv(a.x * SCALE, k as int)),
        y: clip(tdiv(a.y * SCALE, k as int)),
        z: clip(tdiv(a.z * SCALE, k as int)),
    }
}

/// Division of a vector by a positive count (not itself scaled).
pub open spec fn v_divn(a: Vec3, n: i64) -> Vec3
    recommends
        n > 0,
{
    Vec3 { x: fdivn_s(a.x, n), y: fdivn_s(a.y, n), z: fdivn_s(a.z, n) }
}

/// Every component's magnitude is at most `b`.
pub open spec fn v_within(a: Vec3, b: i64) -> bool {
    -b <= a.x <= b && -b <= a.y <= b && -b <= a.z <= b
}

/// True when every component's magnitude is below the representable grid,
/// which in fixed point means the vector is exactly zero.
pub open spec fn v_near_zero(a: Vec3) -> bool {
    a.x == 0 && a.y == 0 && a.z == 0
}

/// Mirror reflection `v - 2 * dot(v, n) * n` about the plane normal to `n`.
pub open spec fn v_reflect(v: Vec3, n: Vec3) -> Vec3 {
    v_sub(v, v_scale(fmul_s((2 * SCALE) as i64, v_dot(v, n)), n))
}

/// Snell refraction of `v` about normal `n` for relative index `eta`:
/// the perpendicular component `eta * (v + cos * n)` plus the parallel
/// component `-sqrt(|1 - |perp|^2|) * n`, with `cos = min(-dot(v, n), 1)`.
pub open spec fn v_refract(v: Vec3, n: Vec3, eta: i64) -> Vec3 {
    let d = fsub_s(0, v_dot(v, n));
    let cos = if d > SCALE {
        SCALE as i64
    } else {
        d
    };
    let perp = v_scale(eta, v_add(v, v_scale(cos, n)));
    let rest = fsub_s(SCALE, v_dot(perp, perp));
    let abs_rest = if rest < 0 {
        fsub_s(0, rest)
    } else {
        rest
    };
    let par = v_scale(fsub_s(0, fsqrt_s(abs_rest)), n);
    v_add(perp, par)
}

/// A vector is exactly zero precisely when its squared norm vanishes.
pub proof fn lemma_near_zero_dot2(a: Vec3)
    ensures
        v_near_zero(a) <==> v_dot2(a, a) == 0,
        v_dot2(a, a) >= 0,
{
    assert(a.x * a.x >= 0 && a.y * a.y >= 0 && a.z * a.z >= 0) by (nonlinear_arith);
    if a.x != 0 {
        assert(a.x * a.x > 0) by (nonlinear_arith)
            requires
                a.x != 0,
        {}
    }
    if a.y != 0 {
        assert(a.y * a.y > 0) by (nonlinear_arith)
            requires
                a.y != 0,
        {}
    }
    if a.z != 0 {
        assert(a.z * a.z > 0) by (nonlinear_arith)
            requires
                a.z != 0,
        {}
    }
}

/// The squared norm dominates each squared component.
proof fn lemma_comp_le_dot2(a: Vec3)
    ensures
        a.x * a.x <= v_dot2(a, a),
        a.y * a.y <= v_dot2(a, a),
        a.z * a.z <= v_dot2(a, a),
        v_dot2(a, a) >= 0,
{
    assert(a.x * a.x >= 0 && a.y * a.y >= 0 && a.z * a.z >= 0) by (nonlinear_arith);
}

impl Vec3 {
    pub fn new(x: i64, y: i64, z: i64) -> (r: Vec3)
        ensures
            r == (Vec3 { x, y, z }),
    {
        Vec3 { x, y, z }
    }

    pub fn vadd(self, b: Vec3) -> (r: Vec3)
        requires
            v_bounded(self),
            v_bounded(b),
        ensures
            r == v_add(self, b),
            v_bounded(r),
    {
        Vec3 { x: fadd(self.x, b.x), y: fadd(self.y, b.y), z: fadd(self.z, b.z) }
    }

    pub fn vsub(self, b: Vec3) -> (r: Vec3)
        requires
            v_bounded(self),
            v_bounded(b),
        ensures
            r == v_sub(self, b),
            v_bounded(r),
    {
        Vec3 { x: fsub(self.x, b.x), y: fsub(self.y, b.y), z: fsub(self.z, b.z) }
    }

    pub fn vneg(self) -> (r: Vec3)
        requires
            v_bounded(self),
        ensures
            r == v_neg(self),
            v_bounded(r),
    {
        Vec3 { x: fsub(0, self.x), y: fsub(0, self.y), z: fsub(0, self.z) }
    }

    pub fn scale(self, k: i64) -> (r: Vec3)
        requires
            v_bounded(self),
            fits(k),
        ensures
            r == v_scale(k, self),
            v_bounded(r),
    {
        Vec3 { x: fmul(k, self.x), y: fmul(k, self.y), z: fmul(k, self.z) }
    }

    pub fn dot(self, b: Vec3) -> (r: i64)
        requires
            v_bounded(self),
            v_bounded(b),
        ensures
            r == v_dot(self, b),
            fits(r),
    {
        proof {
            lemma_mul_abs_bound(self.x as int, b.x as int, VMAX as int, VMAX as int);
            lemma_mul_abs_bound(self.y as int, b.y as int, VMAX as int, VMAX as int);
            lemma_mul_abs_bound(self.z as int, b.z as int, VMAX as int, VMAX as int);
        }
        let p: i128 = (self.x as i128) * (b.x as i128) + (self.y as i128) * (b.y as i128) + (
        self.z as i128) * (b.z as i128);
        let q: i128 = div_trunc_i128(p, SCALE as i128);
        clip_i128(q)
    }

    pub fn cross(self, b: Vec3) -> (r: Vec3)
        requires
            v_bounded(self),
            v_bounded(b),
        ensures
            r == v_cross(self, b),
            v_bounded(r),
    {
        Vec3 {
            x: fsub(fmul(self.y, b.z), fmul(self.z, b.y)),
            y: fsub(fmul(self.z, b.x), fmul(self.x, b.z)),
            z: fsub(fmul(self.x, b.y), fmul(self.y, b.x)),
        }
    }

    pub fn norm(self) -> (r: i64)
        requires
            v_bounded(self),
        ensures
            r == v_norm(self),
            0 <= r <= VMAX,
    {
        proof {
            lemma_mul_abs_bound(self.x as int, self.x as int, VMAX as int, VMAX as int);
            lemma_mul_abs_bound(self.y as int, self.y as int, VMAX as int, VMAX as int);
            lemma_mul_abs_bound(self.z as int, self.z as int, VMAX as int, VMAX as int);
            lemma_comp_le_dot2(self);
        }
        let p: i128 = (self.x as i128) * (self.x as i128) + (self.y as i128) * (self.y as i128) + (
        self.z as i128) * (self.z as i128);
        proof {
            lemma_sqrt_floor_le(p as int, 2 * (VMAX as int));
        }
        let s: u128 = isqrt_u128(p as u128);
        clip_i128(s as i128)
    }

    pub fn vdiv(self, k: i64) -> (r: Vec3)
        requires
            v_bounded(self),
            k > 0,
        ensures
            r == v_div(self, k),
            v_bounded(r),
    {
        Vec3 { x: fdiv(self.x, k), y: fdiv(self.y, k), z: fdiv(self.z, k) }
    }

    pub fn vdivn(self, n: i64) -> (r: Vec3)
        requires
            v_bounded(self),
            n > 0,
        ensures
            r == v_divn(self, n),
            v_bounded(r),
    {
        Vec3 { x: fdivn(self.x, n), y: fdivn(self.y, n), z: fdivn(self.z, n) }
    }

    pub fn near_zero(self) -> (r: bool)
        ensures
            r == v_near_zero(self),
    {
        self.x == 0 && self.y == 0 && self.z == 0
    }

    pub fn normalize(self) -> (r: Vec3)
        requires
            v_bounded(self),
            v_dot2(self, self) > 0,
        ensures
            r == v_unit(self),
            v_bounded(r),
            -SCALE <= r.x <= SCALE,
            -SCALE <= r.y <= SCALE,
            -SCALE <= r.z <= SCALE,
    {
        proof {
            lemma_mul_abs_bound(self.x as int, self.x as int, VMAX as int, VMAX as int);
            lemma_mul_abs_bound(self.y as int, self.y as int, VMAX as int, VMAX as int);
            lemma_mul_abs_bound(self.z as int, self.z as int, VMAX as int, VMAX as int);
            lemma_comp_le_dot2(self);
        }
        let p: i128 = (self.x as i128) * (self.x as i128) + (self.y as i128) * (self.y as i128) + (
        self.z as i128) * (self.z as i128);
        proof {
            lemma_sqrt_floor_le(p as int, 2 * (VMAX as int));
        }
        let s: u128 = isqrt_u128(p as u128);
        proof {
            lemma_sqrt_floor(p as int);
            assert(p as int == v_dot2(self, self));
            assert(p >= 1);
            assert(s as int == sqrt_floor(p as int));
            if s == 0 {
                assert((p as int) < (sqrt_floor(p as int) + 1) * (sqrt_floor(p as int) + 1));
                assert((sqrt_floor(p as int) + 1) * (sqrt_floor(p as int) + 1) == 1)
                    by (nonlinear_arith)
                    requires
                        sqrt_floor(p as int) == 0,
                {}
                assert(false);
            }
            assert(s >= 1);
        }
        let n: i128 = s as i128;
        let rx: i128 = div_trunc_i128((self.x as i128) * (SCALE as i128), n);
        let ry: i128 = div_trunc_i128((self.y as i128) * (SCALE as i128), n);
        let rz: i128 = div_trunc_i128((self.z as i128) * (SCALE as i128), n);
        proof {
            lemma_unit_comp_bound(self.x as int, n as int);
            lemma_unit_comp_bound(self.y as int, n as int);
            lemma_unit_comp_bound(self.z as int, n as int);
        }
        Vec3 { x: clip_i128(rx), y: clip_i128(ry), z: clip_i128(rz) }
    }

    pub fn reflect(self, n: Vec3) -> (r: Vec3)
        requires
            v_bounded(self),
            v_bounded(n),
        ensures
            r == v_reflect(self, n),
            v_bounded(r),
    {
        let d: i64 = self.dot(n);
        let c: i64 = fmul(2 * SCALE, d);
        self.vsub(n.scale(c))
    }

    pub fn refract(self, n: Vec3, eta: i64) -> (r: Vec3)
        requires
            v_bounded(self),
            v_bounded(n),
            fits(eta),
        ensures
            r == v_refract(self, n, eta),
            v_bounded(r),
    {
        let d: i64 = fsub(0, self.dot(n));
        let cos: i64 = if d > SCALE {
            SCALE
        } else {
            d
        };
        let perp: Vec3 = self.vadd(n.scale(cos)).scale(eta);
        proof {
            assert(perp == v_scale(eta, v_add(self, v_scale(cos, n))));
        }
        let rest: i64 = fsub(SCALE, perp.dot(perp));
        let abs_rest: i64 = if rest < 0 {
            fsub(0, rest)
        } else {
            rest
        };
        let par: Vec3 = n.scale(fsub(0, fsqrt(abs_rest)));
        perp.vadd(par)
    }
}

/// A component no longer than the norm divides to at most one unit.
proof fn lemma_unit_comp_bound(x: int, n: int)
    requires
        n >= 1,
        x * x < (n + 1) * (n + 1),
    ensures
        -SCALE <= tdiv(x * SCALE, n) <= SCALE,
{
    assert(-n <= x <= n) by (nonlinear_arith)
        requires
            n >= 1,
            x * x < (n + 1) * (n + 1),
    {}
    if x >= 0 {
        lemma_div_is_ordered(x * SCALE, n * SCALE, n);
        lemma_div_multiples_vanish(SCALE as int, n);
        assert(x * SCALE >= 0) by (nonlinear_arith)
            requires
                x >= 0,
        {}
        assert(x * SCALE <= n * SCALE) by (nonlinear_arith)
            requires
                x <= n,
                SCALE > 0,
        {}
        lemma_div_pos_is_pos(x * SCALE, n);
    } else {
        let m = -x;
        assert(m * SCALE <= n * SCALE) by (nonlinear_arith)
            requires
                m <= n,
                SCALE > 0,
        {}
        assert(m * SCALE >= 0) by (nonlinear_arith)
            requires
                m >= 0,
        {}
        lemma_div_is_ordered(m * SCALE, n * SCALE, n);
        lemma_div_multiples_vanish(SCALE as int, n);
        lemma_div_pos_is_pos(m * SCALE, n);
        assert(-(x * SCALE) == m * SCALE) by (nonlinear_arith)
            requires
                m == -x,
        {}
    }
}

} // verus!
