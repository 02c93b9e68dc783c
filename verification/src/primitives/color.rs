//! Colours.

use vstd::prelude::*;
use crate::primitives::float::Float;

verus! {

/// A colour: the intensities of red, green and blue.
///
/// `==` is identity of the bit patterns.  Equality within a tolerance
/// subtracts numbers and is the caller's to compute.
#[derive(Clone, Copy, Debug, PartialEq, Eq, Structural)]
pub struct Color {
    pub r: Float,
    pub g: Float,
    pub b: Float,
}

impl Color {
    /// The colour `(0, 0, 0)`.
    pub open spec fn spec_black() -> Color {
        Color { r: Float::spec_zero(), g: Float::spec_zero(), b: Float::spec_zero() }
    }

    /// The colour `(1, 1, 1)`.
    pub open spec fn spec_white() -> Color {
        Color { r: Float::spec_one(), g: Float::spec_one(), b: Float::spec_one() }
    }

    /// The colour with the given intensities.
    pub fn new(r: Float, g: Float, b: Float) -> (c: Color)
        ensures
            c == (Color { r, g, b }),
    {
        Color { r, g, b }
    }

    /// `(0, 0, 0)`.
    pub fn black() -> (c: Color)
        ensures
            c == Color::spec_black(),
    {
        Color::new(Float::zero(), Float::zero(), Float::zero())
    }

    /// `(1, 0, 0)`.
    pub fn red() -> (c: Color)
        ensures
            c == (Color { r: Float::spec_one(), g: Float::spec_zero(), b: Float::spec_zero() }),
    {
        Color::new(Float::one(), Float::zero(), Float::zero())
    }

    /// `(0, 1, 0)`.
    pub fn green() -> (c: Color)
        ensures
            c == (Color { r: Float::spec_zero(), g: Float::spec_one(), b: Float::spec_zero() }),
    {
        Color::new(Float::zero(), Float::one(), Float::zero())
    }

    /// `(0, 0, 1)`.
    pub fn blue() -> (c: Color)
        ensures
            c == (Color { r: Float::spec_zero(), g: Float::spec_zero(), b: Float::spec_one() }),
    {
        Color::new(Float::zero(), Float::zero(), Float::one())
    }

    /// `(1, 1, 1)`.
    pub fn white() -> (c: Color)
        ensures
            c == Color::spec_white(),
    {
        Color::new(Float::one(), Float::one(), Float::one())
    }
}

} // verus!
