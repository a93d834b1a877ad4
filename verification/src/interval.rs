//! Closed numeric ranges over fixed-point values.
//!
//! An interval may be empty (`min > max`); the empty and universal intervals
//! use the saturation bound `INF` as the stand-in for an unbounded endpoint.

use crate::fixed::{fits, fsub_s, fsub, INF};
use vstd::prelude::*;

verus! {

#[derive(Clone, Copy, PartialEq, Eq, Structural, Debug)]
pub struct Interval {
    pub min: i64,
    pub max: i64,
}

/// Saturating clamp of `x` into the interval.
pub open spec fn clamp_s(iv: Interval, x: i64) -> i64 {
    if x < iv.min {
        iv.min
    } else if x > iv.max {
        iv.max
    } else {
        x
    }
}

impl Interval {
    pub fn new(min: i64, max: i64) -> (r: Interval)
        ensures
            r == (Interval { min, max }),
    {
        Interval { min, max }
    }

    pub fn min(&self) -> (r: i64)
        ensures
            r == self.min,
    {
        self.min
    }

    pub fn max(&self) -> (r: i64)
        ensures
            r == self.max,
    {
        self.max
    }

    pub fn size(&self) -> (r: i64)
        requires
            fits(self.min),
            fits(self.max),
        ensures
            r == fsub_s(self.max, self.min),
    {
        fsub(self.max, self.min)
    }

    /// Inclusive containment.
    pub fn contains(&self, x: i64) -> (r: bool)
        ensures
            r == (self.min <= x <= self.max),
    {
        self.min <= x && x <= self.max
    }

    /// Exclusive containment.
    pub fn surrounds(&self, x: i64) -> (r: bool)
        ensures
            r == (self.min < x < self.max),
    {
        self.min < x && x < self.max
    }

    pub fn clamps(&self, x: i64) -> (r: i64)
        ensures
            r == clamp_s(*self, x),
    {
        if x < self.min {
            self.min
        } else if x > self.max {
            self.max
        } else {
            x
        }
    }

    /// The empty range: no value lies between its bounds.
    pub fn empty() -> (r: Interval)
        ensures
            r == (Interval { min: INF, max: (-INF) as i64 }),
    {
        Interval { min: INF, max: -INF }
    }

    /// The universal range over stored values.
    pub fn universe() -> (r: Interval)
        ensures
            r == (Interval { min: (-INF) as i64, max: INF }),
    {
        Interval { min: -INF, max: INF }
    }
}

} // verus!
