//! Directions and displacements.

use vstd::prelude::*;
use crate::primitives::float::Float;
use crate::primitives::tuple::Tuple;

verus! {

/// A direction.  Its fourth coordinate is always `0.0`.
///
/// `==` is identity of the bit patterns.  Equality within a tolerance
/// subtracts numbers and is the caller's to compute.
#[derive(Clone, Copy, Debug, PartialEq, Eq, Structural)]
pub struct Vec3 {
    pub x: Float,
    pub y: Float,
    pub z: Float,
}

impl Tuple for Vec3 {
    open spec fn spec_x(&self) -> Float {
        self.x
    }

    open spec fn spec_y(&self) -> Float {
        self.y
    }

    open spec fn spec_z(&self) -> Float {
        self.z
    }

    open spec fn spec_w() -> Float {
        Float::spec_zero()
    }

    fn new(x: Float, y: Float, z: Float) -> (t: Vec3) {
        Vec3 { x, y, z }
    }

    fn zero() -> (t: Vec3) {
        Vec3 { x: Float::zero(), y: Float::zero(), z: Float::zero() }
    }

    fn x(&self) -> (v: Float) {
        self.x
    }

    fn y(&self) -> (v: Float) {
        self.y
    }

    fn z(&self) -> (v: Float) {
        self.z
    }

    fn w(&self) -> (v: Float) {
        Float::zero()
    }
}

impl Vec3 {
    /// The direction with every coordinate negated.
    pub open spec fn negated(self) -> Vec3 {
        Vec3 { x: self.x.negated(), y: self.y.negated(), z: self.z.negated() }
    }
}

impl core::ops::Neg for Vec3 {
    type Output = Vec3;

    /// The opposite direction.  Negation is exact: each coordinate keeps its
    /// magnitude and changes its sign.
    fn neg(self) -> (r: Vec3) {
        Vec3 { x: self.x.neg(), y: self.y.neg(), z: self.z.neg() }
    }
}

impl vstd::std_specs::ops::NegSpecImpl for Vec3 {
    open spec fn obeys_neg_spec() -> bool {
        true
    }

    open spec fn neg_req(self) -> bool {
        true
    }

    open spec fn neg_spec(self) -> Vec3 {
        self.negated()
    }
}

} // verus!
