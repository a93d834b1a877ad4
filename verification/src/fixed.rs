//! Fixed-point scalar arithmetic.
//!
//! A real number `x` is represented by the `i64` value `round(x * SCALE)`,
//! and every stored quantity is saturated into `[-VMAX, VMAX]` (`clip`), so
//! that sums and products of stored values always fit the machine integers
//! they are computed in.  Multiplication and division truncate toward zero,
//! as the spec function `tdiv` states.

use vstd::arithmetic::div_mod::*;
use vstd::prelude::*;

verus! {

/// Number of fixed-point units in 1.0.
pub const SCALE: i64 = 100_000;

/// Saturation bound of every stored fixed-point value.
pub const VMAX: i64 = 1_000_000_000_000_000;

/// The stand-in for an unbounded interval endpoint: the largest stored value.
pub const INF: i64 = 1_000_000_000_000_000;

/// Quotient of `a` by `b`, truncated toward zero (the behaviour of machine
/// division), stated over the Euclidean `/` of specifications.
pub open spec fn tdiv(a: int, b: int) -> int
    recommends
        b > 0,
{
    if a >= 0 {
        a / b
    } else {
        -((-a) / b)
    }
}

/// Saturation of an arbitrary integer into the stored range.
pub open spec fn clip(a: int) -> i64 {
    if a > VMAX {
        VMAX
    } else if a < -VMAX {
        (-VMAX) as i64
    } else {
        a as i64
    }
}

/// Every stored value lies in the saturation range.
pub open spec fn fits(a: i64) -> bool {
    -VMAX <= a <= VMAX
}

/// Fixed-point sum: the exact sum, saturated.
pub open spec fn fadd_s(a: i64, b: i64) -> i64 {
    clip(a + b)
}

/// Fixed-point difference: the exact difference, saturated.
pub open spec fn fsub_s(a: i64, b: i64) -> i64 {
    clip(a - b)
}

/// Fixed-point product: the exact product rescaled with truncation, saturated.
pub open spec fn fmul_s(a: i64, b: i64) -> i64 {
    clip(tdiv(a * b, SCALE as int))
}

/// Fixed-point quotient by a positive divisor, truncated, saturated.
pub open spec fn fdiv_s(a: i64, b: i64) -> i64
    recommends
        b > 0,
{
    clip(tdiv(a * SCALE, b as int))
}

/// Integer square root: the largest `r` with `r * r <= n` (0 for `n <= 0`).
pub open spec fn sqrt_floor(n: int) -> int
    decreases n,
{
    if n < 1 {
        0
    } else {
        let r = 2 * sqrt_floor(n / 4);
        if (r + 1) * (r + 1) <= n {
            r + 1
        } else {
            r
        }
    }
}

/// Fixed-point square root of a fixed-point value, 0 for negative input.
pub open spec fn fsqrt_s(a: i64) -> i64 {
    if a < 0 {
        0
    } else {
        clip(sqrt_floor(a * SCALE))
    }
}

pub proof fn lemma_sqrt_floor(n: int)
    requires
        n >= 0,
    ensures
        sqrt_floor(n) >= 0,
        sqrt_floor(n) * sqrt_floor(n) <= n,
        n < (sqrt_floor(n) + 1) * (sqrt_floor(n) + 1),
    decreases n,
{
    if n < 1 {
    } else {
        let q = n / 4;
        lemma_div_pos_is_pos(n, 4);
        lemma_fundamental_div_mod(n, 4);
        lemma_sqrt_floor(q);
        let s = sqrt_floor(q);
        let r = 2 * s;
        assert(r * r <= 4 * q) by (nonlinear_arith)
            requires
                s * s <= q,
                r == 2 * s,
        {}
        assert(4 * q <= n);
        assert(n < (r + 2) * (r + 2)) by (nonlinear_arith)
            requires
                q < (s + 1) * (s + 1),
                r == 2 * s,
                n < 4 * q + 4,
        {}
        if (r + 1) * (r + 1) <= n {
            assert(sqrt_floor(n) == r + 1);
        } else {
            assert(sqrt_floor(n) == r);
        }
    }
}

/// The squeeze `r * r <= n < (r + 1) * (r + 1)` pins the square root down.
pub proof fn lemma_sqrt_floor_unique(n: int, r: int)
    requires
        n >= 0,
        r >= 0,
        r * r <= n,
        n < (r + 1) * (r + 1),
    ensures
        r == sqrt_floor(n),
{
    lemma_sqrt_floor(n);
    let s = sqrt_floor(n);
    if r < s {
        assert((r + 1) * (r + 1) <= s * s) by (nonlinear_arith)
            requires
                0 <= r,
                r < s,
        {}
    }
    if s < r {
        assert((s + 1) * (s + 1) <= r * r) by (nonlinear_arith)
            requires
                0 <= s,
                s < r,
        {}
    }
}

/// The square root of a perfect square is exact.
pub proof fn lemma_sqrt_floor_square(k: int)
    requires
        k >= 0,
    ensures
        sqrt_floor(k * k) == k,
{
    assert(k * k >= 0) by (nonlinear_arith)
        requires
            k >= 0,
    {}
    assert(k * k < (k + 1) * (k + 1)) by (nonlinear_arith)
        requires
            k >= 0,
    {}
    lemma_sqrt_floor_unique(k * k, k);
}

/// A value whose square dominates `n` bounds the square root of `n`.
pub proof fn lemma_sqrt_floor_le(n: int, cap: int)
    requires
        0 <= n,
        0 <= cap,
        n <= cap * cap,
    ensures
        sqrt_floor(n) <= cap,
{
    lemma_sqrt_floor(n);
    if sqrt_floor(n) > cap {
        assert((cap + 1) * (cap + 1) <= sqrt_floor(n) * sqrt_floor(n)) by (nonlinear_arith)
            requires
                0 <= cap + 1 <= sqrt_floor(n),
        {}
        assert(cap * cap < (cap + 1) * (cap + 1)) by (nonlinear_arith)
            requires
                cap >= 0,
        {}
    }
}

/// Truncating division is monotone in the numerator.
pub proof fn lemma_tdiv_le(a: int, b: int, d: int)
    requires
        a <= b,
        d >= 1,
    ensures
        tdiv(a, d) <= tdiv(b, d),
{
    if a >= 0 {
        lemma_div_is_ordered(a, b, d);
    } else if b < 0 {
        lemma_div_is_ordered(-b, -a, d);
    } else {
        lemma_div_pos_is_pos(-a, d);
        lemma_div_pos_is_pos(b, d);
    }
}

/// Division is exact on a multiple of the divisor.
pub proof fn lemma_tdiv_exact(q: int, d: int)
    requires
        d > 0,
    ensures
        tdiv(q * d, d) == q,
{
    lemma_div_multiples_vanish(q, d);
    lemma_div_multiples_vanish(-q, d);
    assert(q * d == d * q) by (nonlinear_arith);
    assert(-(q * d) == d * (-q)) by (nonlinear_arith);
}

/// A product of bounded factors is bounded by the product of the bounds.
pub proof fn lemma_mul_abs_bound(a: int, b: int, ba: int, bb: int)
    requires
        -ba <= a <= ba,
        -bb <= b <= bb,
    ensures
        -(ba * bb) <= a * b <= ba * bb,
{
    assert(-(ba * bb) <= a * b <= ba * bb) by (nonlinear_arith)
        requires
            -ba <= a <= ba,
            -bb <= b <= bb,
    {}
}

/// Saturate an exact intermediate result into the stored range.
pub fn clip_i128(a: i128) -> (r: i64)
    ensures
        r == clip(a as int),
{
    if a > VMAX as i128 {
        VMAX
    } else if a < -(VMAX as i128) {
        -VMAX
    } else {
        a as i64
    }
}

/// Machine division truncating toward zero, for a positive divisor.
pub fn div_trunc_i128(a: i128, b: i128) -> (r: i128)
    requires
        b > 0,
        a > i128::MIN,
    ensures
        r == tdiv(a as int, b as int),
{
    if a >= 0 {
        let q: u128 = (a as u128) / (b as u128);
        proof {
            lemma_div_is_ordered_by_denominator(a as int, 1, b as int);
            lemma_div_pos_is_pos(a as int, b as int);
        }
        q as i128
    } else {
        let m: u128 = ((-a) as u128) / (b as u128);
        proof {
            lemma_div_is_ordered_by_denominator((-a) as int, 1, b as int);
            lemma_div_pos_is_pos((-a) as int, b as int);
        }
        -(m as i128)
    }
}

pub fn fadd(a: i64, b: i64) -> (r: i64)
    requires
        fits(a),
        fits(b),
    ensures
        r == fadd_s(a, b),
        fits(r),
{
    let s: i64 = a + b;
    if s > VMAX {
        VMAX
    } else if s < -VMAX {
        -VMAX
    } else {
        s
    }
}

pub fn fsub(a: i64, b: i64) -> (r: i64)
    requires
        fits(a),
        fits(b),
    ensures
        r == fsub_s(a, b),
        fits(r),
{
    let s: i64 = a - b;
    if s > VMAX {
        VMAX
    } else if s < -VMAX {
        -VMAX
    } else {
        s
    }
}

pub fn fmul(a: i64, b: i64) -> (r: i64)
    requires
        fits(a),
        fits(b),
    ensures
        r == fmul_s(a, b),
        fits(r),
{
    proof {
        lemma_mul_abs_bound(a as int, b as int, VMAX as int, VMAX as int);
    }
    let p: i128 = (a as i128) * (b as i128);
    let q: i128 = div_trunc_i128(p, SCALE as i128);
    clip_i128(q)
}

pub fn fdiv(a: i64, b: i64) -> (r: i64)
    requires
        fits(a),
        0 < b,
    ensures
        r == fdiv_s(a, b),
        fits(r),
{
    let p: i128 = (a as i128) * (SCALE as i128);
    let q: i128 = div_trunc_i128(p, b as i128);
    clip_i128(q)
}

/// Division of a fixed-point value by a positive count (not itself scaled).
pub open spec fn fdivn_s(a: i64, n: i64) -> i64
    recommends
        n > 0,
{
    clip(tdiv(a as int, n as int))
}

pub fn fdivn(a: i64, n: i64) -> (r: i64)
    requires
        fits(a),
        0 < n,
    ensures
        r == fdivn_s(a, n),
        fits(r),
{
    let q: i128 = div_trunc_i128(a as i128, n as i128);
    clip_i128(q)
}

/// A product of factors in `[0, 1]` stays in `[0, 1]`, below each factor.
pub proof fn lemma_fmul_unit_range(a: i64, b: i64)
    requires
        0 <= a <= SCALE,
        0 <= b <= SCALE,
    ensures
        0 <= fmul_s(a, b) <= a,
        fmul_s(a, b) <= b,
{
    assert(a * b >= 0) by (nonlinear_arith)
        requires
            a >= 0,
            b >= 0,
    {}
    assert(a * b <= a * SCALE) by (nonlinear_arith)
        requires
            b <= SCALE,
            a >= 0,
    {}
    assert(a * b <= b * SCALE) by (nonlinear_arith)
        requires
            a <= SCALE,
            b >= 0,
    {}
    lemma_div_is_ordered(a * b, a * SCALE, SCALE as int);
    lemma_div_is_ordered(a * b, b * SCALE, SCALE as int);
    lemma_div_multiples_vanish(a as int, SCALE as int);
    lemma_div_multiples_vanish(b as int, SCALE as int);
    lemma_div_pos_is_pos(a * b, SCALE as int);
    assert(a * SCALE == SCALE * a) by (nonlinear_arith);
    assert(b * SCALE == SCALE * b) by (nonlinear_arith);
}

/// Floor square root of an exact intermediate value.
pub fn isqrt_u128(n: u128) -> (r: u128)
    ensures
        r == sqrt_floor(n as int),
{
    let mut lo: u128 = 0;
    let mut hi: u128 = 0x1_0000_0000_0000_0000;
    proof {
        assert((0x1_0000_0000_0000_0000 as int) * (0x1_0000_0000_0000_0000 as int)
            == 0x1_0000_0000_0000_0000_0000_0000_0000_0000);
    }
    while lo + 1 < hi
        invariant
            lo < hi,
            hi <= 0x1_0000_0000_0000_0000u128,
            (lo as int) * (lo as int) <= n as int,
            (n as int) < (hi as int) * (hi as int),
        decreases hi - lo,
    {
        let mid: u128 = lo + (hi - lo) / 2;
        proof {
            lemma_mul_abs_bound(mid as int, mid as int, 0xFFFF_FFFF_FFFF_FFFF,
                0xFFFF_FFFF_FFFF_FFFF);
        }
        if mid * mid <= n {
            lo = mid;
        } else {
            hi = mid;
        }
    }
    proof {
        lemma_sqrt_floor_unique(n as int, lo as int);
    }
    lo
}

pub fn fsqrt(a: i64) -> (r: i64)
    requires
        fits(a),
    ensures
        r == fsqrt_s(a),
        fits(r),
        r >= 0,
{
    if a < 0 {
        0
    } else {
        let n: u128 = (a as u128) * (SCALE as u128);
        let s: u128 = isqrt_u128(n);
        proof {
            lemma_sqrt_floor(a * SCALE);
            assert(sqrt_floor(a * SCALE) <= VMAX) by {
                if sqrt_floor(a * SCALE) > VMAX {
                    assert((VMAX + 1) * (VMAX + 1) <= sqrt_floor(a * SCALE) * sqrt_floor(
                        a * SCALE,
                    )) by (nonlinear_arith)
                        requires
                            0 <= VMAX + 1 <= sqrt_floor(a * SCALE),
                    {}
                    assert((VMAX + 1) * (VMAX + 1) > VMAX as int * SCALE as int)
                        by (nonlinear_arith);
                }
            }
        }
        s as i64
    }
}

} // verus!
