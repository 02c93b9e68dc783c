//! The named transformations, as matrices.

use core::ops::Neg;
use vstd::prelude::*;
use crate::primitives::float::Float;
use crate::primitives::matrix4f::Matrix4f;
use crate::primitives::vec3::Vec3;

verus! {

/// The makers of the named transformations.
pub struct Transformations;

impl Transformations {
    /// The translation by `(tx, ty, tz)`, row by row.
    pub open spec fn translation(tx: Float, ty: Float, tz: Float) -> Matrix4f {
        let o = Float::spec_one();
        let z = Float::spec_zero();
        Matrix4f { inner: [o, z, z, tx, z, o, z, ty, z, z, o, tz, z, z, z, o] }
    }

    /// The scaling by `(sx, sy, sz)`, row by row.
    pub open spec fn scaling(sx: Float, sy: Float, sz: Float) -> Matrix4f {
        let o = Float::spec_one();
        let z = Float::spec_zero();
        Matrix4f { inner: [sx, z, z, z, z, sy, z, z, z, z, sz, z, z, z, z, o] }
    }

    /// The rotation round the x axis by the angle with the given cosine and
    /// sine, row by row.
    pub open spec fn rotation_x(cos: Float, sin: Float) -> Matrix4f {
        let o = Float::spec_one();
        let z = Float::spec_zero();
        Matrix4f { inner: [o, z, z, z, z, cos, sin.negated(), z, z, sin, cos, z, z, z, z, o] }
    }

    /// The rotation round the y axis by the angle with the given cosine and
    /// sine, row by row.
    pub open spec fn rotation_y(cos: Float, sin: Float) -> Matrix4f {
        let o = Float::spec_one();
        let z = Float::spec_zero();
        Matrix4f { inner: [cos, z, sin, z, z, o, z, z, sin.negated(), z, cos, z, z, z, z, o] }
    }

    /// The rotation round the z axis by the angle with the given cosine and
    /// sine, row by row.
    pub open spec fn rotation_z(cos: Float, sin: Float) -> Matrix4f {
        let o = Float::spec_one();
        let z = Float::spec_zero();
        Matrix4f { inner: [cos, sin.negated(), z, z, sin, cos, z, z, z, z, o, z, z, z, z, o] }
    }

    /// The shear in which each coordinate moves in proportion to the two
    /// others, row by row.
    pub open spec fn shearing(xy: Float, xz: Float, yx: Float, yz: Float, zx: Float, zy: Float) -> Matrix4f {
        let o = Float::spec_one();
        let z = Float::spec_zero();
        Matrix4f { inner: [o, xy, xz, z, yx, o, yz, z, zx, zy, o, z, z, z, z, o] }
    }

    /// The orientation of a camera with the given axes, row by row: left,
    /// true up, and the opposite of forward.
    pub open spec fn orientation(left: Vec3, true_up: Vec3, forward: Vec3) -> Matrix4f {
        let o = Float::spec_one();
        let z = Float::spec_zero();
        Matrix4f {
            inner: [
                left.x,
                left.y,
                left.z,
                z,
                true_up.x,
                true_up.y,
                true_up.z,
                z,
                forward.x.negated(),
                forward.y.negated(),
                forward.z.negated(),
                z,
                z,
                z,
                z,
                o,
            ],
        }
    }

    /// The translation by `(tx, ty, tz)`.
    pub fn translate(tx: Float, ty: Float, tz: Float) -> (m: Matrix4f)
        ensures
            m == Transformations::translation(tx, ty, tz),
    {
        let mut trans = Matrix4f::identity();
        trans.set(0, 3, tx);
        trans.set(1, 3, ty);
        trans.set(2, 3, tz);
        proof {
            assert(trans.inner =~= Transformations::translation(tx, ty, tz).inner);
        }
        trans
    }

    /// The scaling by `(sx, sy, sz)`.
    pub fn scale(sx: Float, sy: Float, sz: Float) -> (m: Matrix4f)
        ensures
            m == Transformations::scaling(sx, sy, sz),
    {
        let mut sc = Matrix4f::identity();
        sc.set(0, 0, sx);
        sc.set(1, 1, sy);
        sc.set(2, 2, sz);
        proof {
            assert(sc.inner =~= Transformations::scaling(sx, sy, sz).inner);
        }
        sc
    }

    /// The rotation round the y axis by the angle whose cosine is `cos` and
    /// whose sine is `sin`.
    pub fn rotate_y(cos: Float, sin: Float) -> (m: Matrix4f)
        ensures
            m == Transformations::rotation_y(cos, sin),
    {
        let mut rotation = Matrix4f::identity();
        rotation.set(0, 0, cos);
        rotation.set(0, 2, sin);
        rotation.set(2, 0, sin.neg());
        rotation.set(2, 2, cos);
        proof {
            assert(rotation.inner =~= Transformations::rotation_y(cos, sin).inner);
        }
        rotation
    }

    /// The rotation round the x axis by the angle whose cosine is `cos` and
    /// whose sine is `sin`.
    pub fn rotate_x(cos: Float, sin: Float) -> (m: Matrix4f)
        ensures
            m == Transformations::rotation_x(cos, sin),
    {
        let mut rotation = Matrix4f::identity();
        rotation.set(1, 1, cos);
        rotation.set(2, 2, cos);
        rotation.set(2, 1, sin);
        rotation.set(1, 2, sin.neg());
        proof {
            assert(rotation.inner =~= Transformations::rotation_x(cos, sin).inner);
        }
        rotation
    }

    /// The rotation round the z axis by the angle whose cosine is `cos` and
    /// whose sine is `sin`.
    pub fn rotate_z(cos: Float, sin: Float) -> (m: Matrix4f)
        ensures
            m == Transformations::rotation_z(cos, sin),
    {
        let mut rotation = Matrix4f::identity();
        rotation.set(0, 0, cos);
        rotation.set(1, 1, cos);
        rotation.set(0, 1, sin.neg());
        rotation.set(1, 0, sin);
        proof {
            assert(rotation.inner =~= Transformations::rotation_z(cos, sin).inner);
        }
        rotation
    }

    /// The shear that moves x in proportion to y and z, y in proportion to x
    /// and z, and z in proportion to x and y.
    pub fn shear(xy: Float, xz: Float, yx: Float, yz: Float, zx: Float, zy: Float) -> (m: Matrix4f)
        ensures
            m == Transformations::shearing(xy, xz, yx, yz, zx, zy),
    {
        let mut sh = Matrix4f::identity();
        sh.set(0, 1, xy);
        sh.set(0, 2, xz);
        sh.set(1, 0, yx);
        sh.set(1, 2, yz);
        sh.set(2, 0, zx);
        sh.set(2, 1, zy);
        proof {
            assert(sh.inner =~= Transformations::shearing(xy, xz, yx, yz, zx, zy).inner);
        }
        sh
    }

    /// The two factors of the view transformation of a camera that stands at
    /// `from` and has the given axes: the orientation, and the translation
    /// that moves `from` to the origin.  The view transformation is their
    /// product, orientation first.
    pub fn view_transform(left: Vec3, true_up: Vec3, forward: Vec3, from: Vec3) -> (factors: (
        Matrix4f,
        Matrix4f,
    ))
        ensures
            factors.0 == Transformations::orientation(left, true_up, forward),
            factors.1 == Transformations::translation(
                from.x.negated(),
                from.y.negated(),
                from.z.negated(),
            ),
    {
        let o = Float::one();
        let z = Float::zero();
        let back = forward.neg();
        let orientation = Matrix4f::new_from(
            [
                [left.x, left.y, left.z, z],
                [true_up.x, true_up.y, true_up.z, z],
                [back.x, back.y, back.z, z],
                [z, z, z, o],
            ],
        );
        let away = from.neg();
        proof {
            assert(orientation.inner =~= Transformations::orientation(
                left,
                true_up,
                forward,
            ).inner);
        }
        (orientation, Transformations::translate(away.x, away.y, away.z))
    }
}

} // verus!
