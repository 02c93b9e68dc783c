//! Positions in space.

use vstd::prelude::*;
use crate::primitives::float::Float;
use crate::primitives::tuple::Tuple;

verus! {

/// A position.  Its fourth coordinate is always `1.0`.
///
/// `==` is identity of the bit patterns.  Equality within a tolerance
/// subtracts numbers and is the caller's to compute.
#[derive(Clone, Copy, Debug, PartialEq, Eq, Structural)]
pub struct Point {
    pub x: Float,
    pub y: Float,
    pub z: Float,
}

impl Tuple for Point {
    open spec fn spec_x(&self) -> Float {
        self.x
    }

    open spec fn spec_y(&self) -> Float {
        self.y
    }

    open spec fn spec_z(&self) -> Float {
        self.z
    }

    open spec fn spec_w() -> Float {
        Float::spec_one()
    }

    fn new(x: Float, y: Float, z: Float) -> (t: Point) {
        Point { x, y, z }
    }

    fn zero() -> (t: Point) {
        Point { x: Float::zero(), y: Float::zero(), z: Float::zero() }
    }

    fn x(&self) -> (v: Float) {
        self.x
    }

    fn y(&self) -> (v: Float) {
        self.y
    }

    fn z(&self) -> (v: Float) {
        self.z
    }

    fn w(&self) -> (v: Float) {
        Float::one()
    }
}

} // verus!
