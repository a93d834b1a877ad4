//! A Monte Carlo path tracer over fixed-point arithmetic.
//!
//! Every geometric and radiometric quantity is a real number represented in
//! fixed point: an `i64` holding the value scaled by `fixed::SCALE`, kept
//! within `[-fixed::VMAX, fixed::VMAX]` by saturation.  The intersection,
//! scattering and integration pipeline is implemented and verified over this
//! representation; sampling randomness enters only through plain integer
//! draws, so every decision the pipeline makes is proved for every draw.

pub mod fixed;
pub mod vector;
pub mod ray;
pub mod interval;
pub mod color;
pub mod material;
pub mod hittable;
pub mod distribution;
pub mod camera;
