//! A ray: origin plus parametric direction.

use crate::fixed::{fits, SCALE};
use crate::vector::{v_add, v_bounded, v_scale, Point, Vec3, Vector};
use vstd::prelude::*;

verus! {

#[derive(Clone, Copy, PartialEq, Eq, Structural, Debug)]
pub struct Ray {
    pub origin: Point,
    pub direction: Vector,
}

/// Both endpoints of the ray description are stored values.
pub open spec fn ray_bounded(r: Ray) -> bool {
    v_bounded(r.origin) && v_bounded(r.direction)
}

/// The point `origin + t * direction` the ray reaches at parameter `t`.
pub open spec fn ray_at(r: Ray, t: i64) -> Point {
    v_add(r.origin, v_scale(t, r.direction))
}

impl Ray {
    pub fn new(origin: Point, direction: Vector) -> (r: Ray)
        ensures
            r == (Ray { origin, direction }),
    {
        Ray { origin, direction }
    }

    pub fn origin(&self) -> (r: Point)
        ensures
            r == self.origin,
    {
        self.origin
    }

    pub fn direction(&self) -> (r: Vector)
        ensures
            r == self.direction,
    {
        self.direction
    }

    pub fn at(&self, t: i64) -> (r: Point)
        requires
            ray_bounded(*self),
            fits(t),
        ensures
            r == ray_at(*self, t),
            v_bounded(r),
    {
        self.origin.vadd(self.direction.scale(t))
    }
}

} // verus!
