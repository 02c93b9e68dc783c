//! Objects, the intersections of a ray with them, and the choice of the hit.

use core::cmp::Ordering;
use core::ops::Neg;
use vstd::prelude::*;
use crate::primitives::color::Color;
use crate::primitives::float::Float;
use crate::primitives::matrix4f::Matrix4f;
use crate::primitives::point::Point;
use crate::primitives::vec3::Vec3;
use crate::scene::light::Material;
use crate::scene::ray::Ray;
use crate::scene::sphere::Roots;
use crate::scene::sphere::Sphere;

verus! {

/// The geometries that an object can have.
#[derive(Clone, Copy, Debug, PartialEq, Eq, Structural)]
pub enum Shape {
    Sphere(Sphere),
}

impl Shape {
    /// The intersections that a ray with the given roots has with `object`,
    /// by the rule of the shape.
    pub open spec fn recorded<'a>(self, roots: Roots, object: &'a Object) -> Seq<Intersection<'a>> {
        match self {
            Shape::Sphere(_) => Sphere::recorded(roots, object),
        }
    }

    /// Records what a ray with the given roots meets of `object`, by the rule
    /// of the shape: the intersections are returned and appended to `p`.
    pub fn intersect<'a>(&self, roots: Roots, object: &'a Object, p: &mut Intersections<'a>) -> (found:
        Vec<Intersection<'a>>)
        ensures
            found@ == self.recorded(roots, object),
            final(p)@ == old(p)@ + found@,
    {
        match self {
            Shape::Sphere(s) => s.intersect(roots, object, p),
        }
    }
}

/// A place where a ray meets an object: the parameter `t` along the ray, and
/// the object, which the intersection refers to and does not own.
#[derive(Clone, Copy, Debug, PartialEq)]
pub struct Intersection<'a> {
    pub t: Float,
    pub object: &'a Object,
}

impl<'a> Intersection<'a> {
    /// The intersection at `t` with `object`.
    pub fn new(t: Float, object: &'a Object) -> (i: Intersection<'a>)
        ensures
            i == (Intersection { t, object }),
    {
        Intersection { t, object }
    }

    /// How this intersection compares with `other` by the parameter: an
    /// intersection whose parameter is NaN comes before every other, and two
    /// numbers compare as numbers.
    pub open spec fn ordering(self, other: Intersection<'a>) -> Ordering {
        if self.t.spec_is_nan() {
            Ordering::Less
        } else if other.t.spec_is_nan() {
            Ordering::Greater
        } else if self.t.spec_lt(other.t) {
            Ordering::Less
        } else if self.t.spec_equals(other.t) {
            Ordering::Equal
        } else {
            Ordering::Greater
        }
    }

    /// Compares two intersections by their parameter, NaN first.  The
    /// result agrees with the order into which a collection is sorted.
    pub fn cmp(&self, other: &Intersection<'a>) -> (o: Ordering)
        ensures
            o == self.ordering(*other),
            o == Ordering::Greater <==> self.t.rank() > other.t.rank(),
            o == Ordering::Equal ==> self.t.rank() == other.t.rank(),
    {
        proof {
            Intersection::lemma_ordering_by_rank(*self, *other);
        }
        if self.t.is_nan() {
            Ordering::Less
        } else if other.t.is_nan() {
            Ordering::Greater
        } else if self.t.lt(other.t) {
            Ordering::Less
        } else if self.t.equals(other.t) {
            Ordering::Equal
        } else {
            Ordering::Greater
        }
    }

    /// The comparison agrees with the rank by which a collection is sorted:
    /// an intersection is greater than another exactly when its parameter
    /// ranks strictly higher, and equal only where the ranks are.
    pub proof fn lemma_ordering_by_rank(a: Intersection<'a>, b: Intersection<'a>)
        ensures
            a.ordering(b) == Ordering::Greater <==> a.t.rank() > b.t.rank(),
            a.ordering(b) == Ordering::Equal ==> a.t.rank() == b.t.rank(),
            a.ordering(b) == Ordering::Less ==> a.t.rank() <= b.t.rank(),
    {
        Float::lemma_place_orders_values(a.t, b.t);
    }

    /// Whether the intersection lies on the ray and not behind its origin:
    /// `t >= 0`, true of both zeros and false of NaN.
    pub open spec fn is_ahead(self) -> bool {
        Float::spec_zero().spec_le(self.t)
    }
}

impl<'a> PartialOrd for Intersection<'a> {
    /// The comparison by the parameter, NaN first.  It is never undecided.
    fn partial_cmp(&self, other: &Intersection<'a>) -> (o: Option<Ordering>) {
        Some(self.cmp(other))
    }
}

impl<'a> vstd::std_specs::cmp::PartialOrdSpecImpl for Intersection<'a> {
    open spec fn obeys_partial_cmp_spec() -> bool {
        true
    }

    open spec fn partial_cmp_spec(&self, other: &Intersection<'a>) -> Option<Ordering> {
        Some(self.ordering(*other))
    }
}

/// The intersections of one ray, in the order in which they were recorded or
/// into which they were sorted.
pub struct Intersections<'a> {
    pub intersections: Vec<Intersection<'a>>,
}

impl<'a> View for Intersections<'a> {
    type V = Seq<Intersection<'a>>;

    open spec fn view(&self) -> Seq<Intersection<'a>> {
        self.intersections@
    }
}

impl<'a> Intersections<'a> {
    /// Whether the parameters ascend, NaNs first.
    pub open spec fn sorted(s: Seq<Intersection<'a>>) -> bool {
        forall|i: int, j: int| 0 <= i < j < s.len() ==> s[i].t.rank() <= s[j].t.rank()
    }

    /// Whether `k` is the first place in `s` whose intersection lies ahead.
    pub open spec fn first_ahead(s: Seq<Intersection<'a>>, k: int) -> bool {
        &&& 0 <= k < s.len()
        &&& s[k].is_ahead()
        &&& forall|j: int| 0 <= j < k ==> !s[j].is_ahead()
    }

    /// Whether no intersection in `s` lies ahead.
    pub open spec fn none_ahead(s: Seq<Intersection<'a>>) -> bool {
        forall|j: int| 0 <= j < s.len() ==> !s[j].is_ahead()
    }

    /// Appends an intersection.
    pub fn push(&mut self, intersection: Intersection<'a>)
        ensures
            final(self)@ == old(self)@.push(intersection),
    {
        self.intersections.push(intersection);
    }

    /// The empty collection.
    pub fn new() -> (xs: Intersections<'a>)
        ensures
            xs@ == Seq::<Intersection<'a>>::empty(),
    {
        Intersections { intersections: Vec::new() }
    }

    /// The number of intersections.
    pub fn len(&self) -> (n: usize)
        ensures
            n == self@.len(),
    {
        self.intersections.len()
    }

    /// The hit: the first intersection in the collection that lies ahead, or
    /// nothing where none does.  In a sorted collection it is the one with
    /// the lowest parameter that is not negative.
    pub fn hit(&self) -> (h: Option<&Intersection<'a>>)
        ensures
            match h {
                Some(x) => exists|k: int|
                    Intersections::first_ahead(self@, k) && *x == #[trigger] self@[k],
                None => Intersections::none_ahead(self@),
            },
    {
        let n = self.intersections.len();
        let mut k: usize = 0;
        while k < n
            invariant
                n == self@.len(),
                k <= n,
                forall|j: int| 0 <= j < k ==> !self@[j].is_ahead(),
            decreases n - k,
        {
            if self.intersections[k].t.is_nonnegative() {
                proof {
                    assert(Intersections::first_ahead(self@, k as int));
                }
                return Some(&self.intersections[k]);
            }
            k += 1;
        }
        None
    }

    /// The collection of the given intersections, in their order.
    pub fn from_intersections(from: Vec<Intersection<'a>>) -> (xs: Intersections<'a>)
        ensures
            xs@ == from@,
    {
        Intersections { intersections: from }
    }

    /// Sorts the intersections by their parameter, ascending, NaNs first.
    /// The collection holds the same intersections afterwards, each as often
    /// as before.
    pub fn sort(&mut self)
        ensures
            Intersections::sorted(final(self)@),
            final(self)@.to_multiset() == old(self)@.to_multiset(),
    {
        let n = self.intersections.len();
        let mut i: usize = 1;
        while i < n
            invariant
                n == self@.len(),
                1 <= i,
                self@.to_multiset() == old(self)@.to_multiset(),
                forall|a: int, b: int| 0 <= a < b < i && b < n ==> self@[a].t.rank() <= self@[b].t.rank(),
            decreases n - i,
        {
            let mut j: usize = i;
            while j > 0 && self.intersections[j].t.sorts_before(self.intersections[j - 1].t)
                invariant
                    n == self@.len(),
                    j <= i < n,
                    self@.to_multiset() == old(self)@.to_multiset(),
                    forall|a: int, b: int|
                        0 <= a < b <= i && a != j && b != j ==> self@[a].t.rank() <= self@[b].t.rank(),
                    forall|b: int| j < b <= i ==> self@[j as int].t.rank() <= self@[b].t.rank(),
                decreases j,
            {
                let ghost before = self@;
                let lower = self.intersections[j - 1];
                let upper = self.intersections[j];
                self.intersections[j - 1] = upper;
                self.intersections[j] = lower;
                proof {
                    lemma_swap_keeps_multiset(before, j - 1, j as int);
                    assert(self@ =~= before.update(j - 1, before[j as int]).update(
                        j as int,
                        before[j - 1],
                    ));
                }
                j -= 1;
            }
            i += 1;
        }
    }

    /// In a sorted collection the first intersection ahead is the nearest
    /// one ahead: no intersection that lies ahead has a lower parameter.
    pub proof fn lemma_hit_is_nearest(s: Seq<Intersection<'a>>, k: int)
        requires
            Intersections::sorted(s),
            Intersections::first_ahead(s, k),
        ensures
            forall|j: int| 0 <= j < s.len() && s[j].is_ahead() ==> s[k].t.spec_le(s[j].t),
    {
        assert forall|j: int| 0 <= j < s.len() && s[j].is_ahead() implies s[k].t.spec_le(
            s[j].t,
        ) by {
            Float::lemma_place_orders_values(s[k].t, s[j].t);
            Float::lemma_place_orders_values(s[k].t, Float::spec_zero());
            Float::lemma_place_orders_values(s[j].t, Float::spec_zero());
            if j > k {
                assert(s[k].t.rank() <= s[j].t.rank());
            }
        }
    }

    /// The hit of a collection once it is sorted, told of the collection as
    /// it was: `after` is `before` sorted.  There is a hit exactly when some
    /// intersection of `before` lies ahead, and the hit is then one of them,
    /// with the lowest parameter among those ahead.
    pub proof fn lemma_hit_after_sort(before: Seq<Intersection<'a>>, after: Seq<Intersection<'a>>)
        requires
            after.to_multiset() == before.to_multiset(),
            Intersections::sorted(after),
        ensures
            Intersections::none_ahead(after) <==> Intersections::none_ahead(before),
            forall|k: int| #[trigger]
                Intersections::first_ahead(after, k) ==> before.contains(after[k]) && forall|
                    j: int,
                |
                    0 <= j < before.len() && before[j].is_ahead() ==> after[k].t.spec_le(
                        #[trigger] before[j].t,
                    ),
    {
        assert forall|x: Intersection<'a>| before.contains(x) <==> after.contains(x) by {
            vstd::seq_lib::to_multiset_contains(before, x);
            vstd::seq_lib::to_multiset_contains(after, x);
        }
        if Intersections::none_ahead(after) {
            assert forall|j: int| 0 <= j < before.len() implies !before[j].is_ahead() by {
                assert(before.contains(before[j]));
                assert(after.contains(before[j]));
            }
        }
        if Intersections::none_ahead(before) {
            assert forall|j: int| 0 <= j < after.len() implies !after[j].is_ahead() by {
                assert(after.contains(after[j]));
                assert(before.contains(after[j]));
            }
        }
        assert forall|k: int| #[trigger] Intersections::first_ahead(after, k) implies before.contains(
            after[k],
        ) && forall|j: int|
            0 <= j < before.len() && before[j].is_ahead() ==> after[k].t.spec_le(
                #[trigger] before[j].t,
            ) by {
            assert(after.contains(after[k]));
            Intersections::lemma_hit_is_nearest(after, k);
            assert forall|j: int| 0 <= j < before.len() && before[j].is_ahead() implies after[k].t.spec_le(
                #[trigger] before[j].t,
            ) by {
                assert(before.contains(before[j]));
                assert(after.contains(before[j]));
                let m = choose|m: int| 0 <= m < after.len() && after[m] == before[j];
                assert(after[m].is_ahead());
            }
        }
    }
}

impl<'a> core::ops::Index<usize> for Intersections<'a> {
    type Output = Intersection<'a>;

    /// The intersection at `index`.
    fn index(&self, index: usize) -> (x: &Intersection<'a>)
        ensures
            *x == self@[index as int],
    {
        &self.intersections[index]
    }
}

impl<'a> vstd::std_specs::core::IndexSpecImpl<usize> for Intersections<'a> {
    open spec fn index_req(&self, index: &usize) -> bool {
        *index < self@.len()
    }
}

/// Exchanging two entries of a sequence keeps what it holds.
pub proof fn lemma_swap_keeps_multiset<T>(s: Seq<T>, i: int, j: int)
    requires
        0 <= i < s.len(),
        0 <= j < s.len(),
    ensures
        s.update(i, s[j]).update(j, s[i]).to_multiset() == s.to_multiset(),
{
    broadcast use vstd::seq_lib::group_to_multiset_ensures;

    let mid = s.update(i, s[j]);
    vstd::seq_lib::to_multiset_update(s, i, s[j]);
    vstd::seq_lib::to_multiset_update(mid, j, s[i]);
    assert(s.to_multiset().count(s[i]) > 0) by {
        assert(s.contains(s[i]));
    }
    assert(s.to_multiset().count(s[j]) > 0) by {
        assert(s.contains(s[j]));
    }
    assert(mid.update(j, s[i]).to_multiset() =~= s.to_multiset());
}

/// An object of the scene: a shape, the transformation that places it, and a
/// material.
///
/// With the transformation the object keeps its inverse and the transpose of
/// the inverse, so that neither is computed again for each ray.  The three
/// change together: the transpose that is kept is always that of the inverse
/// that is kept.
#[derive(Clone, Copy, Debug, PartialEq)]
pub struct Object {
    shape: Shape,
    transformation: Matrix4f,
    transformation_inverse: Matrix4f,
    transformation_inverse_transposed: Matrix4f,
    material: Material,
}

impl Object {
    #[verifier::type_invariant]
    spec fn caches_agree(self) -> bool {
        self.transformation_inverse_transposed == self.transformation_inverse.transposed()
    }

    /// The shape of the object.
    pub closed spec fn spec_shape(self) -> Shape {
        self.shape
    }

    /// The transformation from the object's space to the world's.
    pub closed spec fn spec_transformation(self) -> Matrix4f {
        self.transformation
    }

    /// The matrix that the object keeps as the inverse of its transformation.
    pub closed spec fn spec_inverse(self) -> Matrix4f {
        self.transformation_inverse
    }

    /// The matrix that the object keeps as the transpose of that inverse.
    pub closed spec fn spec_inverse_transposed(self) -> Matrix4f {
        self.transformation_inverse_transposed
    }

    /// The material of the object.
    pub closed spec fn spec_material(self) -> Material {
        self.material
    }

    /// The inverse that an object keeps for a transformation whose inversion
    /// gave `inverse`: the inverse itself, or the identity where there is
    /// none.
    pub open spec fn inverse_or_identity(inverse: Option<Matrix4f>) -> Matrix4f {
        match inverse {
            Some(m) => m,
            None => Matrix4f::spec_identity(),
        }
    }

    /// The shape of a sphere object: the unit sphere at the origin.
    pub open spec fn sphere_shape() -> Shape {
        Shape::Sphere(Sphere::unit())
    }

    /// A unit sphere at the origin, with the identity as its transformation
    /// and the default material.
    pub fn sphere() -> (o: Object)
        ensures
            o.spec_shape() == Object::sphere_shape(),
            o.spec_transformation() == Matrix4f::spec_identity(),
            o.spec_inverse() == Matrix4f::spec_identity(),
            o.spec_inverse_transposed() == Matrix4f::spec_identity(),
            o.spec_material() == Material::spec_default(),
    {
        proof {
            Matrix4f::lemma_transpose_identity();
        }
        Object {
            shape: Shape::Sphere(Sphere::default()),
            transformation: Matrix4f::identity(),
            transformation_inverse: Matrix4f::identity(),
            transformation_inverse_transposed: Matrix4f::identity(),
            material: Material::default(),
        }
    }

    /// Gives the object a transformation, together with what inverting it
    /// yielded.  Where the transformation has no inverse the identity stands
    /// in for it.  The transpose of the inverse is renewed with it.
    pub fn set_transformation(&mut self, transformation: Matrix4f, inverse: Option<Matrix4f>)
        ensures
            final(self).spec_transformation() == transformation,
            final(self).spec_inverse() == Object::inverse_or_identity(inverse),
            final(self).spec_inverse_transposed() == Object::inverse_or_identity(
                inverse,
            ).transposed(),
            final(self).spec_shape() == old(self).spec_shape(),
            final(self).spec_material() == old(self).spec_material(),
    {
        let kept = match inverse {
            Some(m) => m,
            None => Matrix4f::identity(),
        };
        *self = Object {
            shape: self.shape,
            transformation,
            transformation_inverse: kept,
            transformation_inverse_transposed: kept.transpose(),
            material: self.material,
        };
    }

    /// Gives the object a material.
    pub fn set_material(&mut self, material: Material)
        ensures
            final(self).spec_material() == material,
            final(self).spec_shape() == old(self).spec_shape(),
            final(self).spec_transformation() == old(self).spec_transformation(),
            final(self).spec_inverse() == old(self).spec_inverse(),
            final(self).spec_inverse_transposed() == old(self).spec_inverse_transposed(),
    {
        proof {
            use_type_invariant(&*self);
        }
        self.material = material;
    }

    /// The object with another material.
    pub fn with_material(self, material: Material) -> (o: Object)
        ensures
            o.spec_material() == material,
            o.spec_shape() == self.spec_shape(),
            o.spec_transformation() == self.spec_transformation(),
            o.spec_inverse() == self.spec_inverse(),
            o.spec_inverse_transposed() == self.spec_inverse_transposed(),
    {
        proof {
            use_type_invariant(&self);
        }
        Object {
            shape: self.shape,
            transformation: self.transformation,
            transformation_inverse: self.transformation_inverse,
            transformation_inverse_transposed: self.transformation_inverse_transposed,
            material,
        }
    }

    /// The transformation of the object.
    pub fn transformation(&self) -> (m: &Matrix4f)
        ensures
            *m == self.spec_transformation(),
    {
        &self.transformation
    }

    /// The inverse that the object keeps.
    pub fn transformation_inverse(&self) -> (m: &Matrix4f)
        ensures
            *m == self.spec_inverse(),
    {
        &self.transformation_inverse
    }

    /// The transpose of the inverse that the object keeps.
    pub fn transformation_inverse_transposed(&self) -> (m: &Matrix4f)
        ensures
            *m == self.spec_inverse_transposed(),
            *m == self.spec_inverse().transposed(),
    {
        proof {
            use_type_invariant(self);
        }
        &self.transformation_inverse_transposed
    }

    /// The material of the object.
    pub fn material(&self) -> (m: Material)
        ensures
            m == self.spec_material(),
    {
        self.material
    }

    /// Gives the object's material another colour.
    pub fn set_material_color(&mut self, color: Color)
        ensures
            final(self).spec_material() == (Material { color, ..old(self).spec_material() }),
            final(self).spec_shape() == old(self).spec_shape(),
            final(self).spec_transformation() == old(self).spec_transformation(),
            final(self).spec_inverse() == old(self).spec_inverse(),
            final(self).spec_inverse_transposed() == old(self).spec_inverse_transposed(),
    {
        proof {
            use_type_invariant(&*self);
        }
        self.material.color = color;
    }

    /// Records what a ray meets of this object, given the roots of the ray
    /// in the object's own space.  Every intersection refers to this object.
    pub fn intersect<'a>(&'a self, roots: Roots, i: &mut Intersections<'a>) -> (found: Vec<
        Intersection<'a>,
    >)
        ensures
            found@ == self.spec_shape().recorded(roots, self),
            final(i)@ == old(i)@ + found@,
    {
        self.shape.intersect(roots, self, i)
    }

    /// The shape of the object.
    pub fn shape(&self) -> (s: Shape)
        ensures
            s == self.spec_shape(),
    {
        self.shape
    }
}

/// What shading needs to know of a hit: where along the ray it lies, the
/// object, the point in the world, the direction to the eye and the normal of
/// the surface there.
#[derive(Clone, Copy, Debug, PartialEq)]
pub struct IntersectionState<'a> {
    pub t: Float,
    pub object: &'a Object,
    pub point: Point,
    pub eyev: Vec3,
    pub normalv: Vec3,
}

impl<'a> IntersectionState<'a> {
    /// The state of the hit `hit` of the ray `ray`, given the point of the
    /// hit and the normal there.  The direction to the eye is the opposite of
    /// the ray's.
    pub fn new(hit: Intersection<'a>, ray: &Ray, point: Point, normalv: Vec3) -> (state:
        IntersectionState<'a>)
        ensures
            state == (IntersectionState {
                t: hit.t,
                object: hit.object,
                point,
                eyev: ray.direction.negated(),
                normalv,
            }),
    {
        IntersectionState {
            t: hit.t,
            object: hit.object,
            point,
            eyev: ray.direction().neg(),
            normalv,
        }
    }
}

} // verus!
