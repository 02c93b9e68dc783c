//! The sphere: what a ray records when it meets one.

use vstd::prelude::*;
use crate::primitives::float::Float;
use crate::primitives::point::Point;
use crate::primitives::tuple::Tuple;
use crate::scene::object::Intersection;
use crate::scene::object::Intersections;
use crate::scene::object::Object;

verus! {

/// What solving the quadratic of a ray against a sphere yields: the
/// discriminant `b² − 4ac` and the two candidates `(−b ∓ √discriminant) / 2a`,
/// the smaller first.  The candidates mean something only where the
/// discriminant is not negative.
#[derive(Clone, Copy, Debug, PartialEq, Eq, Structural)]
pub struct Roots {
    pub discriminant: Float,
    pub t1: Float,
    pub t2: Float,
}

/// A sphere, in its own space.
#[derive(Clone, Copy, Debug, PartialEq, Eq, Structural)]
pub struct Sphere {
    pub center: Point,
    pub radius: Float,
}

impl Default for Sphere {
    /// The unit sphere at the origin.
    fn default() -> (s: Sphere)
        ensures
            s == Sphere::unit(),
    {
        Sphere { center: Point::zero(), radius: Float::one() }
    }
}

impl Sphere {
    /// The unit sphere at the origin.
    pub open spec fn unit() -> Sphere {
        Sphere {
            center: Point {
                x: Float::spec_zero(),
                y: Float::spec_zero(),
                z: Float::spec_zero(),
            },
            radius: Float::spec_one(),
        }
    }

    /// The intersections that a ray with the given roots has with `object`:
    /// none where the discriminant is negative or NaN, and otherwise both
    /// candidates in their order, whatever their sign and also where they
    /// coincide.
    pub open spec fn recorded<'a>(roots: Roots, object: &'a Object) -> Seq<Intersection<'a>> {
        if Float::spec_zero().spec_le(roots.discriminant) {
            seq![
                Intersection { t: roots.t1, object: object },
                Intersection { t: roots.t2, object: object },
            ]
        } else {
            Seq::empty()
        }
    }

    /// Records what a ray with the given roots meets of `object`: the
    /// intersections are returned and appended to `i`.
    pub fn intersect<'a>(&self, roots: Roots, object: &'a Object, i: &mut Intersections<'a>) -> (found:
        Vec<Intersection<'a>>)
        ensures
            found@ == Sphere::recorded(roots, object),
            final(i)@ == old(i)@ + found@,
    {
        let mut found: Vec<Intersection<'a>> = Vec::new();
        if roots.discriminant.is_nonnegative() {
            let i1 = Intersection::new(roots.t1, object);
            let i2 = Intersection::new(roots.t2, object);
            i.push(i1);
            i.push(i2);
            found.push(i1);
            found.push(i2);
        }
        proof {
            assert(found@ =~= Sphere::recorded(roots, object));
            assert(i@ =~= old(i)@ + found@);
        }
        found
    }

    /// The sphere round `center` with the given radius.
    pub fn new(center: Point, radius: Float) -> (s: Sphere)
        ensures
            s == (Sphere { center, radius }),
    {
        Sphere { center, radius }
    }

    /// The sphere round `center` with the given radius.
    pub fn new_with_transformation(center: Point, radius: Float) -> (s: Sphere)
        ensures
            s == (Sphere { center, radius }),
    {
        Sphere { center, radius }
    }

    /// The radius.
    pub fn radius(&self) -> (r: Float)
        ensures
            r == self.radius,
    {
        self.radius
    }

    /// The centre.
    pub fn center(&self) -> (p: Point)
        ensures
            p == self.center,
    {
        self.center
    }
}

} // verus!
