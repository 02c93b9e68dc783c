//! Rays.

use vstd::prelude::*;
use crate::primitives::point::Point;
use crate::primitives::vec3::Vec3;

verus! {

/// A half-line: where it starts and the direction in which it runs.
#[derive(Clone, Copy, Debug, PartialEq, Eq, Structural)]
pub struct Ray {
    pub origin: Point,
    pub direction: Vec3,
}

impl Ray {
    /// The ray from `origin` along `direction`.
    pub fn new(origin: Point, direction: Vec3) -> (ray: Ray)
        ensures
            ray == (Ray { origin, direction }),
    {
        Ray { origin, direction }
    }

    /// Where the ray starts.
    pub fn origin(&self) -> (p: Point)
        ensures
            p == self.origin,
    {
        self.origin
    }

    /// The direction in which the ray runs.
    pub fn direction(&self) -> (v: Vec3)
        ensures
            v == self.direction,
    {
        self.direction
    }
}

} // verus!
