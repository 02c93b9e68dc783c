//! The capability shared by points and directions.

use vstd::prelude::*;
use crate::primitives::float::Float;

verus! {

/// A homogeneous triple: three stored coordinates and a fourth, `w`, that the
/// type fixes.  A position has `w = 1`, so that translations move it; a
/// direction has `w = 0`, so that they do not.
pub trait Tuple: Sized {
    /// The first coordinate.
    spec fn spec_x(&self) -> Float;

    /// The second coordinate.
    spec fn spec_y(&self) -> Float;

    /// The third coordinate.
    spec fn spec_z(&self) -> Float;

    /// The fourth coordinate, the same for every value of the type.
    spec fn spec_w() -> Float;

    /// The tuple with the given coordinates.
    fn new(x: Float, y: Float, z: Float) -> (t: Self)
        ensures
            t.spec_x() == x,
            t.spec_y() == y,
            t.spec_z() == z,
    ;

    /// The tuple whose three coordinates are `+0.0`.
    fn zero() -> (t: Self)
        ensures
            t.spec_x() == Float::spec_zero(),
            t.spec_y() == Float::spec_zero(),
            t.spec_z() == Float::spec_zero(),
    ;

    /// The first coordinate.
    fn x(&self) -> (v: Float)
        ensures
            v == self.spec_x(),
    ;

    /// The second coordinate.
    fn y(&self) -> (v: Float)
        ensures
            v == self.spec_y(),
    ;

    /// The third coordinate.
    fn z(&self) -> (v: Float)
        ensures
            v == self.spec_z(),
    ;

    /// The fourth coordinate.
    fn w(&self) -> (v: Float)
        ensures
            v == Self::spec_w(),
    ;
}

} // verus!
