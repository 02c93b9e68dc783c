//! Point lights, materials and the choice of the terms that light a point.

use vstd::arithmetic::power2::lemma2_to64_rest;
use vstd::prelude::*;
use crate::primitives::color::Color;
use crate::primitives::float::Float;
use crate::primitives::point::Point;

verus! {

/// The bit pattern of `0.1`, the ambient share of the default material.
pub const DEFAULT_AMBIENT_BITS: u64 = 0x3fb9_9999_9999_999a;

/// The bit pattern of `0.9`, the diffuse share of the default material.
pub const DEFAULT_DIFFUSE_BITS: u64 = 0x3fec_cccc_cccc_cccd;

/// The bit pattern of `0.9`, the specular share of the default material.
pub const DEFAULT_SPECULAR_BITS: u64 = 0x3fec_cccc_cccc_cccd;

/// The bit pattern of `200.0`, the shininess of the default material.
pub const DEFAULT_SHININESS_BITS: u64 = 0x4069_0000_0000_0000;

/// A light without size that shines equally in all directions.
#[derive(Clone, Copy, Debug, PartialEq, Eq, Structural)]
pub struct PointLight {
    pub position: Point,
    pub intensity: Color,
}

impl PointLight {
    /// The light at `position` with the colour `intensity`.
    pub fn new(position: Point, intensity: Color) -> (light: PointLight)
        ensures
            light == (PointLight { position, intensity }),
    {
        PointLight { position, intensity }
    }

    /// The colour of the light.
    pub fn intensity(&self) -> (c: Color)
        ensures
            c == self.intensity,
    {
        self.intensity
    }

    /// Where the light stands.
    pub fn position(&self) -> (p: Point)
        ensures
            p == self.position,
    {
        self.position
    }
}

/// How a surface answers to light.
#[derive(Clone, Copy, Debug, PartialEq, Eq, Structural)]
pub struct Material {
    pub color: Color,
    pub ambient: Float,
    pub diffuse: Float,
    pub specular: Float,
    pub shininess: Float,
}

impl Material {
    /// The default material: white, ambient `0.1`, diffuse `0.9`, specular
    /// `0.9`, shininess `200.0`.
    pub open spec fn spec_default() -> Material {
        Material {
            color: Color::spec_white(),
            ambient: Float { bits: DEFAULT_AMBIENT_BITS },
            diffuse: Float { bits: DEFAULT_DIFFUSE_BITS },
            specular: Float { bits: DEFAULT_SPECULAR_BITS },
            shininess: Float { bits: DEFAULT_SHININESS_BITS },
        }
    }

    /// The shares of the default material are the numbers they stand for:
    /// one tenth and nine tenths as nearly as doubles come to them, and two
    /// hundred exactly.
    pub proof fn lemma_default_shares()
        ensures
            Material::spec_default().ambient.rounds(1, 10),
            Material::spec_default().diffuse.rounds(9, 10),
            Material::spec_default().specular.rounds(9, 10),
            Material::spec_default().shininess.is_fraction(200, 1),
    {
        lemma2_to64_rest();
        Float::lemma_fraction_of_fields(Material::spec_default().ambient, 1, 10, 56);
        Float::lemma_fraction_of_fields(Material::spec_default().diffuse, 9, 10, 53);
        Float::lemma_fraction_of_fields(Material::spec_default().shininess, 200, 1, 45);
    }

    /// The material with the given colour and shares.
    pub fn new(color: Color, ambient: Float, diffuse: Float, specular: Float, shininess: Float) -> (m:
        Material)
        ensures
            m == (Material { color, ambient, diffuse, specular, shininess }),
    {
        Material { color, ambient, diffuse, specular, shininess }
    }
}

impl Default for Material {
    fn default() -> (m: Material)
        ensures
            m == Material::spec_default(),
            m.ambient.rounds(1, 10),
            m.diffuse.rounds(9, 10),
            m.specular.rounds(9, 10),
            m.shininess.is_fraction(200, 1),
    {
        proof {
            Material::lemma_default_shares();
        }
        Material {
            color: Color::white(),
            ambient: Float::from_bits(DEFAULT_AMBIENT_BITS),
            diffuse: Float::from_bits(DEFAULT_DIFFUSE_BITS),
            specular: Float::from_bits(DEFAULT_SPECULAR_BITS),
            shininess: Float::from_bits(DEFAULT_SHININESS_BITS),
        }
    }
}

/// The terms of the Phong sum at a point, from the three candidate terms and
/// the two cosines that decide which of them count.
///
/// The ambient term always counts.  Where the light stands behind the surface
/// (`light_dot_normal < 0`) the diffuse and the specular term are black.
/// Where the reflection points away from the eye (`reflect_dot_eye <= 0`) the
/// specular term is black.  A NaN cosine passes both tests, as it does for the
/// machine's comparisons.
pub open spec fn lit_terms(
    ambient: Color,
    diffuse: Color,
    specular: Color,
    light_dot_normal: Float,
    reflect_dot_eye: Float,
) -> (Color, Color, Color) {
    if light_dot_normal.spec_lt(Float::spec_zero()) {
        (ambient, Color::spec_black(), Color::spec_black())
    } else if reflect_dot_eye.spec_le(Float::spec_zero()) {
        (ambient, diffuse, Color::spec_black())
    } else {
        (ambient, diffuse, specular)
    }
}

/// Selects the terms that light a point.
///
/// `ambient`, `diffuse` and `specular` are the terms as the material, the
/// light and the geometry give them; `light_dot_normal` is the cosine between
/// the direction to the light and the normal, `reflect_dot_eye` the cosine
/// between the reflected light and the direction to the eye.  The result
/// holds the three terms whose sum is the colour of the point.
pub fn lighting(
    ambient: Color,
    diffuse: Color,
    specular: Color,
    light_dot_normal: Float,
    reflect_dot_eye: Float,
) -> (terms: (Color, Color, Color))
    ensures
        terms == lit_terms(ambient, diffuse, specular, light_dot_normal, reflect_dot_eye),
{
    if light_dot_normal.is_negative() {
        (ambient, Color::black(), Color::black())
    } else if reflect_dot_eye.is_nonpositive() {
        (ambient, diffuse, Color::black())
    } else {
        (ambient, diffuse, specular)
    }
}

} // verus!
