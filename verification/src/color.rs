//! Linear-light color and the output pixel pipeline.
//!
//! A color is a `Vec3` of fixed-point channels in linear light.  A channel
//! becomes an output byte by gamma correction (square root, negative values
//! darkened to zero), a saturating clamp into `[0, 0.999]`, and scaling by
//! `255.999` with truncation toward zero.

use crate::fixed::{clip_i128, div_trunc_i128, fits, fsqrt, fsqrt_s, sqrt_floor, tdiv, SCALE, VMAX};
use crate::interval::{clamp_s, Interval};
use crate::vector::Vec3;
use vstd::prelude::*;

verus! {

pub type Color = Vec3;

/// Upper clamp bound of a gamma-corrected channel: 0.999 in fixed point.
pub const INTENSITY_MAX: i64 = 99_900;

/// Numerator of the byte scaling factor 255.999.
pub const BYTE_SCALE_NUM: i64 = 255_999;

/// Denominator of the byte scaling factor 255.999.
pub const BYTE_SCALE_DEN: i64 = 1000;

/// Pure black: the zero color.
pub open spec fn black_s() -> Color {
    Vec3 { x: 0, y: 0, z: 0 }
}

/// All three channels lie in `[0, 1]`.
pub open spec fn color_unit(c: Color) -> bool {
    0 <= c.x <= SCALE && 0 <= c.y <= SCALE && 0 <= c.z <= SCALE
}

/// Black comes out of the output pipeline as the zero byte triple.
pub proof fn lemma_black_bytes()
    ensures
        bytes_s(black_s()) == (0u8, 0u8, 0u8),
{
    assert(sqrt_floor(0) == 0);
    assert(gamma_s(0) == 0);
    assert(clamp_s(intensity_s(), 0) == 0);
    assert(tdiv(0, SCALE * BYTE_SCALE_DEN) == 0) by {
        vstd::arithmetic::div_mod::lemma_div_of0(SCALE * BYTE_SCALE_DEN);
    }
}

/// The clamp range applied to gamma-corrected channels.
pub open spec fn intensity_s() -> Interval {
    Interval { min: 0, max: INTENSITY_MAX }
}

/// Gamma correction of one linear channel: its square root, 0 if negative.
pub open spec fn gamma_s(c: i64) -> i64 {
    fsqrt_s(c)
}

/// The output byte of one linear channel: gamma, clamp, scale, truncate.
pub open spec fn byte_s(c: i64) -> u8 {
    tdiv(clamp_s(intensity_s(), gamma_s(c)) * BYTE_SCALE_NUM, SCALE * BYTE_SCALE_DEN) as u8
}

/// All three channels of a color, as output bytes.
pub open spec fn bytes_s(c: Color) -> (u8, u8, u8) {
    (byte_s(c.x), byte_s(c.y), byte_s(c.z))
}

/// A byte value never leaves `[0, 255]`: the clamp bound times the scale
/// factor truncates to at most 255.
pub proof fn lemma_byte_range(c: i64)
    ensures
        0 <= clamp_s(intensity_s(), gamma_s(c)) * BYTE_SCALE_NUM,
        tdiv(clamp_s(intensity_s(), gamma_s(c)) * BYTE_SCALE_NUM, SCALE * BYTE_SCALE_DEN) <= 255,
{
    let cl = clamp_s(intensity_s(), gamma_s(c));
    assert(0 <= cl <= INTENSITY_MAX);
    assert(cl * BYTE_SCALE_NUM <= INTENSITY_MAX * BYTE_SCALE_NUM) by (nonlinear_arith)
        requires
            0 <= cl <= INTENSITY_MAX,
    {}
    assert(cl * BYTE_SCALE_NUM >= 0) by (nonlinear_arith)
        requires
            cl >= 0,
    {}
    assert(tdiv(cl * BYTE_SCALE_NUM, SCALE * BYTE_SCALE_DEN) <= tdiv(
        INTENSITY_MAX * BYTE_SCALE_NUM,
        SCALE * BYTE_SCALE_DEN,
    )) by {
        vstd::arithmetic::div_mod::lemma_div_is_ordered(
            cl * BYTE_SCALE_NUM,
            INTENSITY_MAX * BYTE_SCALE_NUM,
            SCALE * BYTE_SCALE_DEN,
        );
    }
}

impl Vec3 {
    /// Gamma correction of one channel.
    pub fn gamma_correction(c: i64) -> (r: i64)
        requires
            fits(c),
        ensures
            r == gamma_s(c),
    {
        fsqrt(c)
    }

    pub fn r(&self) -> (c: i64)
        ensures
            c == self.x,
    {
        self.x
    }

    pub fn g(&self) -> (c: i64)
        ensures
            c == self.y,
    {
        self.y
    }

    pub fn b(&self) -> (c: i64)
        ensures
            c == self.z,
    {
        self.z
    }

    pub fn r_byte(&self) -> (r: u8)
        requires
            fits(self.x),
        ensures
            r == byte_s(self.x),
    {
        channel_byte(self.x)
    }

    pub fn g_byte(&self) -> (r: u8)
        requires
            fits(self.y),
        ensures
            r == byte_s(self.y),
    {
        channel_byte(self.y)
    }

    pub fn b_byte(&self) -> (r: u8)
        requires
            fits(self.z),
        ensures
            r == byte_s(self.z),
    {
        channel_byte(self.z)
    }

    /// The three output bytes of this color, in channel order.
    pub fn bytes(&self) -> (r: (u8, u8, u8))
        requires
            fits(self.x),
            fits(self.y),
            fits(self.z),
        ensures
            r == bytes_s(*self),
    {
        (channel_byte(self.x), channel_byte(self.y), channel_byte(self.z))
    }
}

/// One linear channel through the whole output pipeline.
fn channel_byte(c: i64) -> (r: u8)
    requires
        fits(c),
    ensures
        r == byte_s(c),
{
    let g: i64 = fsqrt(c);
    let intensity: Interval = Interval::new(0, INTENSITY_MAX);
    let cl: i64 = intensity.clamps(g);
    proof {
        lemma_byte_range(c);
        crate::fixed::lemma_mul_abs_bound(cl as int, BYTE_SCALE_NUM as int, VMAX as int,
            BYTE_SCALE_NUM as int);
    }
    let num: i128 = (cl as i128) * (BYTE_SCALE_NUM as i128);
    let q: i128 = div_trunc_i128(num, (SCALE as i128) * (BYTE_SCALE_DEN as i128));
    q as u8
}

} // verus!
