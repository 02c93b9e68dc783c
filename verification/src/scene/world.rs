//! The world: the objects and lights of a scene, and what a ray meets in it.

use vstd::arithmetic::power2::lemma2_to64_rest;
use vstd::prelude::*;
use crate::primitives::color::Color;
use crate::primitives::float::Float;
use crate::primitives::matrix4f::Matrix4f;
use crate::primitives::point::Point;
use crate::scene::light::Material;
use crate::scene::light::PointLight;
use crate::scene::object::Intersection;
use crate::scene::object::Intersections;
use crate::scene::object::Object;
use crate::scene::sphere::Roots;
use crate::scene::transforms::Transformations;

verus! {

/// The bit pattern of `0.8`, the red of the outer sphere of the default world.
pub const DEFAULT_RED_BITS: u64 = 0x3fe9_9999_9999_999a;

/// The bit pattern of `0.6`, the blue of the outer sphere of the default world.
pub const DEFAULT_BLUE_BITS: u64 = 0x3fe3_3333_3333_3333;

/// The bit pattern of `0.7`, the diffuse share of the outer sphere.
pub const DEFAULT_OUTER_DIFFUSE_BITS: u64 = 0x3fe6_6666_6666_6666;

/// The bit pattern of `0.2`, the specular share of the outer sphere.
pub const DEFAULT_OUTER_SPECULAR_BITS: u64 = 0x3fc9_9999_9999_999a;

/// The bit pattern of `0.5`, the scale of the inner sphere of the default world.
pub const DEFAULT_INNER_SCALE_BITS: u64 = 0x3fe0_0000_0000_0000;

/// The bit pattern of `10.0`, the distance of the light of the default world
/// from the origin along each axis.
pub const DEFAULT_LIGHT_OFFSET_BITS: u64 = 0x4024_0000_0000_0000;

/// A scene: its objects and its lights, each in the order in which they were
/// added.
pub struct World {
    pub objects: Vec<Object>,
    pub light_sources: Vec<PointLight>,
}

impl World {
    /// What a ray meets of the first `upto` objects, object after object and
    /// unsorted.  `roots[k]` holds the roots of the ray in the space of
    /// object `k`; an object for which there are none is met nowhere.
    pub open spec fn gathered<'a>(objects: Seq<Object>, roots: Seq<Roots>, upto: int) -> Seq<
        Intersection<'a>,
    >
        decreases upto,
    {
        if upto <= 0 {
            Seq::empty()
        } else if upto - 1 < roots.len() {
            World::gathered(objects, roots, upto - 1) + objects[upto - 1].spec_shape().recorded(
                roots[upto - 1],
                &objects[upto - 1],
            )
        } else {
            World::gathered(objects, roots, upto - 1)
        }
    }

    /// The material of the outer sphere of the default world: the colour
    /// `(0.8, 1.0, 0.6)`, diffuse `0.7`, specular `0.2`, and the default
    /// ambient share and shininess.
    pub open spec fn default_outer_material() -> Material {
        Material {
            color: Color {
                r: Float { bits: DEFAULT_RED_BITS },
                g: Float::spec_one(),
                b: Float { bits: DEFAULT_BLUE_BITS },
            },
            diffuse: Float { bits: DEFAULT_OUTER_DIFFUSE_BITS },
            specular: Float { bits: DEFAULT_OUTER_SPECULAR_BITS },
            ..Material::spec_default()
        }
    }

    /// The transformation of the inner sphere of the default world: the
    /// scaling by one half in each direction.
    pub open spec fn default_inner_scaling() -> Matrix4f {
        let half = Float { bits: DEFAULT_INNER_SCALE_BITS };
        Transformations::scaling(half, half, half)
    }

    /// The light of the default world: white, at `(-10, 10, -10)`.
    pub open spec fn default_light() -> PointLight {
        let far = Float { bits: DEFAULT_LIGHT_OFFSET_BITS };
        PointLight {
            position: Point { x: far.negated(), y: far, z: far.negated() },
            intensity: Color::spec_white(),
        }
    }

    /// The numbers of the default world are the numbers they stand for:
    /// the tenths as nearly as doubles come to them, the half and the tens
    /// exactly.
    pub proof fn lemma_default_numbers()
        ensures
            World::default_outer_material().color.r.rounds(8, 10),
            World::default_outer_material().color.g.is_fraction(1, 1),
            World::default_outer_material().color.b.rounds(6, 10),
            World::default_outer_material().diffuse.rounds(7, 10),
            World::default_outer_material().specular.rounds(2, 10),
            World::default_inner_scaling().at(0, 0).is_fraction(1, 2),
            World::default_light().position.x.is_fraction(-10, 1),
            World::default_light().position.y.is_fraction(10, 1),
            World::default_light().position.z.is_fraction(-10, 1),
    {
        lemma2_to64_rest();
        let m = World::default_outer_material();
        Float::lemma_fraction_of_fields(m.color.r, 8, 10, 53);
        Float::lemma_fraction_of_fields(m.color.g, 1, 1, 52);
        Float::lemma_fraction_of_fields(m.color.b, 6, 10, 53);
        Float::lemma_fraction_of_fields(m.diffuse, 7, 10, 53);
        Float::lemma_fraction_of_fields(m.specular, 2, 10, 55);
        Float::lemma_fraction_of_fields(World::default_inner_scaling().at(0, 0), 1, 2, 53);
        let p = World::default_light().position;
        Float::lemma_fraction_of_fields(p.x, -10, 1, 49);
        Float::lemma_fraction_of_fields(p.y, 10, 1, 49);
        Float::lemma_fraction_of_fields(p.z, -10, 1, 49);
    }

    /// The transformation of the inner sphere of the default world.
    pub fn default_inner_transformation() -> (m: Matrix4f)
        ensures
            m == World::default_inner_scaling(),
            m.at(0, 0).is_fraction(1, 2),
    {
        proof {
            World::lemma_default_numbers();
        }
        let half = Float::from_bits(DEFAULT_INNER_SCALE_BITS);
        Transformations::scale(half, half, half)
    }

    /// The default world: an outer unit sphere with the material of
    /// [`World::default_outer_material`], an inner sphere scaled by one half,
    /// and one white light at `(-10, 10, -10)`.  `inner_inverse` is what
    /// inverting the scaling of the inner sphere yielded.
    pub fn default_with(inner_inverse: Option<Matrix4f>) -> (w: World)
        ensures
            w.objects@.len() == 2,
            w.objects@[0].spec_shape() == Object::sphere_shape(),
            w.objects@[0].spec_transformation() == Matrix4f::spec_identity(),
            w.objects@[0].spec_inverse() == Matrix4f::spec_identity(),
            w.objects@[0].spec_material() == World::default_outer_material(),
            w.objects@[1].spec_shape() == Object::sphere_shape(),
            w.objects@[1].spec_transformation() == World::default_inner_scaling(),
            w.objects@[1].spec_inverse() == Object::inverse_or_identity(inner_inverse),
            w.objects@[1].spec_material() == Material::spec_default(),
            w.light_sources@ == seq![World::default_light()],
            w.objects@[0].spec_material().color.r.rounds(8, 10),
            w.objects@[0].spec_material().color.g.is_fraction(1, 1),
            w.objects@[0].spec_material().color.b.rounds(6, 10),
            w.objects@[0].spec_material().diffuse.rounds(7, 10),
            w.objects@[0].spec_material().specular.rounds(2, 10),
            w.light_sources@[0].position.x.is_fraction(-10, 1),
            w.light_sources@[0].position.y.is_fraction(10, 1),
            w.light_sources@[0].position.z.is_fraction(-10, 1),
    {
        proof {
            World::lemma_default_numbers();
        }
        let outer = Object::sphere().with_material(
            Material {
                color: Color::new(
                    Float::from_bits(DEFAULT_RED_BITS),
                    Float::one(),
                    Float::from_bits(DEFAULT_BLUE_BITS),
                ),
                diffuse: Float::from_bits(DEFAULT_OUTER_DIFFUSE_BITS),
                specular: Float::from_bits(DEFAULT_OUTER_SPECULAR_BITS),
                ..Material::default()
            },
        );
        let mut inner = Object::sphere();
        inner.set_transformation(World::default_inner_transformation(), inner_inverse);
        let far = Float::from_bits(DEFAULT_LIGHT_OFFSET_BITS);
        let light = PointLight::new(
            Point { x: far.neg(), y: far, z: far.neg() },
            Color::white(),
        );
        let mut w = World::new();
        w.push_object(outer);
        w.push_object(inner);
        w.push_light_source(light);
        proof {
            assert(w.light_sources@ =~= seq![World::default_light()]);
        }
        w
    }

    /// The world without objects and lights.
    pub fn new() -> (w: World)
        ensures
            w.objects@ == Seq::<Object>::empty(),
            w.light_sources@ == Seq::<PointLight>::empty(),
    {
        World { objects: Vec::new(), light_sources: Vec::new() }
    }

    /// The objects of the world.
    pub fn objects(&self) -> (objects: &Vec<Object>)
        ensures
            objects@ == self.objects@,
    {
        &self.objects
    }

    /// Adds an object behind those that are there.
    pub fn push_object(&mut self, obj: Object)
        ensures
            final(self).objects@ == old(self).objects@.push(obj),
            final(self).light_sources@ == old(self).light_sources@,
    {
        self.objects.push(obj);
    }

    /// Adds a light behind those that are there.
    pub fn push_light_source(&mut self, obj: PointLight)
        ensures
            final(self).light_sources@ == old(self).light_sources@.push(obj),
            final(self).objects@ == old(self).objects@,
    {
        self.light_sources.push(obj);
    }

    /// The lights of the world.
    pub fn light_sources(&self) -> (lights: &Vec<PointLight>)
        ensures
            lights@ == self.light_sources@,
    {
        &self.light_sources
    }

    /// Everything that a ray meets in the world, sorted by the parameter
    /// along the ray.  `roots[k]` holds the roots of the ray in the space of
    /// object `k`.  The result holds what each object records for its roots,
    /// each intersection once, and nothing else.
    pub fn intersect_world<'a>(&'a self, roots: &Vec<Roots>) -> (xs: Intersections<'a>)
        ensures
            Intersections::sorted(xs@),
            xs@.to_multiset() == World::gathered(
                self.objects@,
                roots@,
                self.objects@.len() as int,
            ).to_multiset(),
    {
        let mut intersections = Intersections::new();
        let n = self.objects.len();
        let mut k: usize = 0;
        while k < n
            invariant
                n == self.objects@.len(),
                k <= n,
                intersections@ == World::gathered(self.objects@, roots@, k as int),
            decreases n - k,
        {
            if k < roots.len() {
                let _ = self.objects[k].intersect(roots[k], &mut intersections);
            }
            k += 1;
        }
        intersections.sort();
        intersections
    }

    /// What a ray sees of the world: of everything that it meets, the
    /// intersection that lies ahead with the lowest parameter, or nothing
    /// where none lies ahead.  `roots[k]` holds the roots of the ray in the
    /// space of object `k`.
    pub fn hit<'a>(&'a self, roots: &Vec<Roots>) -> (h: Option<Intersection<'a>>)
        ensures
            ({
                let met = World::gathered(self.objects@, roots@, self.objects@.len() as int);
                match h {
                    Some(x) => {
                        &&& met.contains(x)
                        &&& x.is_ahead()
                        &&& forall|j: int|
                            0 <= j < met.len() && met[j].is_ahead() ==> x.t.spec_le(
                                #[trigger] met[j].t,
                            )
                    },
                    None => Intersections::none_ahead(met),
                }
            }),
    {
        let xs = self.intersect_world(roots);
        proof {
            Intersections::lemma_hit_after_sort(
                World::gathered(self.objects@, roots@, self.objects@.len() as int),
                xs@,
            );
        }
        match xs.hit() {
            Some(x) => Some(*x),
            None => None,
        }
    }
}

} // verus!
