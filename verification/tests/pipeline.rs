//! The library at work in a renderer: the tests supply the arithmetic of
//! doubles, the library decides and keeps the books.

use float_cmp::{ApproxEq, F64Margin};
use std::f64::consts::{FRAC_PI_2, FRAC_PI_4, PI, SQRT_2};
use std::ops::Neg;
use the_ray_tracer_challenge::primitives::color::Color;
use the_ray_tracer_challenge::primitives::float::Float;
use the_ray_tracer_challenge::primitives::matrix2f::Matrix2f;
use the_ray_tracer_challenge::primitives::matrix3f::Matrix3f;
use the_ray_tracer_challenge::primitives::matrix4f::Matrix4f;
use the_ray_tracer_challenge::primitives::point::Point;
use the_ray_tracer_challenge::primitives::tuple::Tuple;
use the_ray_tracer_challenge::primitives::vec3::Vec3;
use the_ray_tracer_challenge::scene::light;
use the_ray_tracer_challenge::scene::light::{Material, PointLight};
use the_ray_tracer_challenge::scene::object::{
    Intersection, IntersectionState, Intersections, Object, Shape,
};
use the_ray_tracer_challenge::scene::ray::Ray;
use the_ray_tracer_challenge::scene::sphere::{Roots, Sphere};
use the_ray_tracer_challenge::scene::transforms::Transformations;
use the_ray_tracer_challenge::scene::world::World;

const LOW_EPSILON: f64 = 1.0e-3;

fn f(x: f64) -> Float {
    Float::from_bits(x.to_bits())
}

fn n(x: Float) -> f64 {
    f64::from_bits(x.to_bits())
}

fn near(a: f64, b: f64) -> bool {
    a.approx_eq(
        b,
        F64Margin {
            epsilon: LOW_EPSILON,
            ulps: 0,
        },
    )
}

fn point(x: f64, y: f64, z: f64) -> Point {
    Point::new(f(x), f(y), f(z))
}

fn vec3(x: f64, y: f64, z: f64) -> Vec3 {
    Vec3::new(f(x), f(y), f(z))
}

fn color(r: f64, g: f64, b: f64) -> Color {
    Color::new(f(r), f(g), f(b))
}

fn m3(layout: [[f64; 3]; 3]) -> Matrix3f {
    Matrix3f::new_from(layout.map(|row| row.map(f)))
}

fn m4(layout: [[f64; 4]; 4]) -> Matrix4f {
    Matrix4f::new_from(layout.map(|row| row.map(f)))
}

fn same_point(a: Point, b: Point) -> bool {
    near(n(a.x), n(b.x)) && near(n(a.y), n(b.y)) && near(n(a.z), n(b.z))
}

fn same_vec(a: Vec3, b: Vec3) -> bool {
    near(n(a.x), n(b.x)) && near(n(a.y), n(b.y)) && near(n(a.z), n(b.z))
}

fn same_color(a: Color, b: Color) -> bool {
    near(n(a.r), n(b.r)) && near(n(a.g), n(b.g)) && near(n(a.b), n(b.b))
}

fn same_matrix(a: &Matrix4f, b: &Matrix4f) -> bool {
    (0..4).all(|i| (0..4).all(|j| near(n(a[(i, j)]), n(b[(i, j)]))))
}

fn v_add(a: Vec3, b: Vec3) -> Vec3 {
    vec3(n(a.x) + n(b.x), n(a.y) + n(b.y), n(a.z) + n(b.z))
}

fn v_sub(a: Vec3, b: Vec3) -> Vec3 {
    vec3(n(a.x) - n(b.x), n(a.y) - n(b.y), n(a.z) - n(b.z))
}

fn v_scale(a: Vec3, k: f64) -> Vec3 {
    vec3(n(a.x) * k, n(a.y) * k, n(a.z) * k)
}

fn dot(a: Vec3, b: Vec3) -> f64 {
    n(a.x) * n(b.x) + n(a.y) * n(b.y) + n(a.z) * n(b.z)
}

fn cross(a: Vec3, b: Vec3) -> Vec3 {
    vec3(
        n(a.y) * n(b.z) - n(a.z) * n(b.y),
        n(a.z) * n(b.x) - n(a.x) * n(b.z),
        n(a.x) * n(b.y) - n(a.y) * n(b.x),
    )
}

fn magnitude(a: Vec3) -> f64 {
    f64::sqrt(n(a.x) * n(a.x) + n(a.y) * n(a.y) + n(a.z) * n(a.z))
}

fn normalize(a: Vec3) -> Vec3 {
    let m = magnitude(a);
    vec3(n(a.x) / m, n(a.y) / m, n(a.z) / m)
}

fn reflect(in_v: Vec3, normal: Vec3) -> Vec3 {
    v_sub(in_v, v_scale(v_scale(normal, 2.0), dot(in_v, normal)))
}

fn p_sub(a: Point, b: Point) -> Vec3 {
    vec3(n(a.x) - n(b.x), n(a.y) - n(b.y), n(a.z) - n(b.z))
}

fn p_add(a: Point, b: Vec3) -> Point {
    point(n(a.x) + n(b.x), n(a.y) + n(b.y), n(a.z) + n(b.z))
}

fn c_add(a: Color, b: Color) -> Color {
    color(n(a.r) + n(b.r), n(a.g) + n(b.g), n(a.b) + n(b.b))
}

fn c_blend(a: Color, b: Color) -> Color {
    color(n(a.r) * n(b.r), n(a.g) * n(b.g), n(a.b) * n(b.b))
}

fn c_scale(a: Color, k: f64) -> Color {
    color(n(a.r) * k, n(a.g) * k, n(a.b) * k)
}

fn det2(m: &Matrix2f) -> f64 {
    n(m[(0, 0)]) * n(m[(1, 1)]) - n(m[(0, 1)]) * n(m[(1, 0)])
}

fn minor3(m: &Matrix3f, row: usize, col: usize) -> f64 {
    det2(&m.submatrix(row, col))
}

fn cofactor3(m: &Matrix3f, row: usize, col: usize) -> f64 {
    n(Matrix3f::cofactor(f(minor3(m, row, col)), row, col))
}

fn det3(m: &Matrix3f) -> f64 {
    cofactor3(m, 0, 0) * n(m[(0, 0)])
        + cofactor3(m, 0, 1) * n(m[(0, 1)])
        + cofactor3(m, 0, 2) * n(m[(0, 2)])
}

fn minor4(m: &Matrix4f, row: usize, col: usize) -> f64 {
    det3(&m.submatrix(row, col))
}

fn cofactor4(m: &Matrix4f, row: usize, col: usize) -> f64 {
    n(Matrix4f::cofactor(f(minor4(m, row, col)), row, col))
}

fn det4(m: &Matrix4f) -> f64 {
    cofactor4(m, 0, 0) * n(m[(0, 0)])
        + cofactor4(m, 0, 1) * n(m[(0, 1)])
        + cofactor4(m, 0, 2) * n(m[(0, 2)])
        + cofactor4(m, 0, 3) * n(m[(0, 3)])
}

fn invert(m: &Matrix4f) -> Option<Matrix4f> {
    let det = det4(m);
    let mut quotients = Matrix4f::new();
    for i in 0..4 {
        for j in 0..4 {
            quotients.set(i, j, f(cofactor4(m, i, j) / det));
        }
    }
    Matrix4f::invert(f(det), &quotients)
}

fn mul(a: &Matrix4f, b: &Matrix4f) -> Matrix4f {
    let mut m = Matrix4f::new();
    for row in 0..4 {
        for col in 0..4 {
            let entry = n(a[(row, 0)]) * n(b[(0, col)])
                + n(a[(row, 1)]) * n(b[(1, col)])
                + n(a[(row, 2)]) * n(b[(2, col)])
                + n(a[(row, 3)]) * n(b[(3, col)]);
            m.set(row, col, f(entry));
        }
    }
    m
}

fn apply<T: Tuple>(m: &Matrix4f, t: T) -> T {
    let (x, y, z, w) = (n(t.x()), n(t.y()), n(t.z()), n(t.w()));
    let row = |i: usize| {
        n(m[(i, 0)]) * x + n(m[(i, 1)]) * y + n(m[(i, 2)]) * z + n(m[(i, 3)]) * w
    };
    T::new(f(row(0)), f(row(1)), f(row(2)))
}

fn translate(x: f64, y: f64, z: f64) -> Matrix4f {
    Transformations::translate(f(x), f(y), f(z))
}

fn scale(x: f64, y: f64, z: f64) -> Matrix4f {
    Transformations::scale(f(x), f(y), f(z))
}

fn rotate_x(radians: f64) -> Matrix4f {
    Transformations::rotate_x(f(f64::cos(radians)), f(f64::sin(radians)))
}

fn rotate_z(radians: f64) -> Matrix4f {
    Transformations::rotate_z(f(f64::cos(radians)), f(f64::sin(radians)))
}

fn view_transform(from: Vec3, to: Vec3, up: Vec3) -> Matrix4f {
    let forward = normalize(v_sub(to, from));
    let left = cross(forward, normalize(up));
    let true_up = cross(left, forward);
    let (orientation, translation) = Transformations::view_transform(left, true_up, forward, from);
    mul(&orientation, &translation)
}

fn transform_ray(ray: &Ray, m: &Matrix4f) -> Ray {
    Ray::new(apply(m, ray.origin()), apply(m, ray.direction()))
}

fn position(ray: &Ray, t: f64) -> Point {
    p_add(ray.origin(), v_scale(ray.direction(), t))
}

fn set_transformation(object: &mut Object, m: Matrix4f) {
    object.set_transformation(m, invert(&m));
}

fn sphere_roots(sphere: &Sphere, r: &Ray) -> Roots {
    let a = dot(r.direction(), r.direction());
    let oc = p_sub(r.origin(), sphere.center());
    let b = 2.0 * dot(r.direction(), oc);
    let c = dot(oc, oc) - n(sphere.radius()) * n(sphere.radius());
    let discriminant = b * b - (4.0 * a * c);
    let sqrt_disc = f64::sqrt(discriminant);
    Roots {
        discriminant: f(discriminant),
        t1: f((-b - sqrt_disc) / (2.0 * a)),
        t2: f((-b + sqrt_disc) / (2.0 * a)),
    }
}

fn object_roots(object: &Object, ray: &Ray) -> Roots {
    let local = transform_ray(ray, object.transformation_inverse());
    match object.shape() {
        Shape::Sphere(s) => sphere_roots(&s, &local),
    }
}

fn intersect<'a>(object: &'a Object, ray: &Ray, xs: &mut Intersections<'a>) {
    object.intersect(object_roots(object, ray), xs);
}

fn normal_at(object: &Object, p: Point) -> Vec3 {
    let obj_point = apply(object.transformation_inverse(), p);
    let obj_normal = match object.shape() {
        Shape::Sphere(s) => p_sub(obj_point, s.center()),
    };
    let world_normal = apply(object.transformation_inverse_transposed(), obj_normal);
    normalize(Vec3::new(world_normal.x(), world_normal.y(), world_normal.z()))
}

fn lighting(m: Material, light: &PointLight, position: Point, eyev: Vec3, normalv: Vec3) -> Color {
    let effective_color = c_blend(m.color, light.intensity());
    let lightv = normalize(p_sub(light.position(), position));
    let ambient = c_scale(effective_color, n(m.ambient));

    let light_dot_normal = dot(lightv, normalv);
    let diffuse = c_scale(c_scale(effective_color, n(m.diffuse)), light_dot_normal);

    let reflectv = reflect(lightv.neg(), normalv);
    let reflect_dot_eye = dot(reflectv, eyev);
    let factor = reflect_dot_eye.powf(n(m.shininess));
    let specular = c_scale(c_scale(light.intensity(), n(m.specular)), factor);

    let (ambient, diffuse, specular) = light::lighting(
        ambient,
        diffuse,
        specular,
        f(light_dot_normal),
        f(reflect_dot_eye),
    );
    c_add(c_add(ambient, diffuse), specular)
}

fn default_world_objects() -> (Object, Object) {
    let s1 = Object::sphere().with_material(Material {
        color: color(0.8, 1.0, 0.6),
        diffuse: f(0.7),
        specular: f(0.2),
        ..Default::default()
    });
    let mut s2 = Object::sphere();
    set_transformation(&mut s2, scale(0.5, 0.5, 0.5));
    (s1, s2)
}

fn default_world_of() -> World {
    World::default_with(invert(&World::default_inner_transformation()))
}

fn intersect_world<'a>(w: &'a World, ray: &Ray) -> Intersections<'a> {
    let roots: Vec<Roots> = w.objects().iter().map(|o| object_roots(o, ray)).collect();
    w.intersect_world(&roots)
}

fn prepare<'a>(hit: Intersection<'a>, ray: &Ray) -> IntersectionState<'a> {
    let p = position(ray, n(hit.t));
    IntersectionState::new(hit, ray, p, normal_at(hit.object, p))
}

fn shade_hit(w: &World, state: IntersectionState) -> Color {
    let mut c = Color::black();
    for l in w.light_sources().iter() {
        c = c_add(
            c,
            lighting(
                state.object.material(),
                l,
                state.point,
                state.eyev,
                state.normalv,
            ),
        );
    }
    c
}

fn color_at(w: &World, ray: Ray) -> Color {
    let roots: Vec<Roots> = w.objects().iter().map(|o| object_roots(o, &ray)).collect();
    match w.hit(&roots) {
        None => Color::black(),
        Some(hit) => shade_hit(w, prepare(hit, &ray)),
    }
}

#[test]
fn matrix2f_determinant() {
    let m = Matrix2f::new_from([[f(1.0), f(5.0)], [f(-3.0), f(2.0)]]);
    assert_eq!(det2(&m), 17.0);
}

#[test]
fn matrix4f_multiplication() {
    let m1 = m4([
        [1.0, 2.0, 3.0, 4.0],
        [5.0, 6.0, 7.0, 8.0],
        [9.0, 8.0, 7.0, 6.0],
        [5.0, 4.0, 3.0, 2.0],
    ]);
    let m2 = m4([
        [-2.0, 1.0, 2.0, 3.0],
        [3.0, 2.0, 1.0, -1.0],
        [4.0, 3.0, 6.0, 5.0],
        [1.0, 2.0, 7.0, 8.0],
    ]);
    let expected = m4([
        [20.0, 22.0, 50.0, 48.0],
        [44.0, 54.0, 114.0, 108.0],
        [40.0, 58.0, 110.0, 102.0],
        [16.0, 26.0, 46.0, 42.0],
    ]);

    let result = mul(&m1, &m2);
    assert!(same_matrix(&result, &expected));
    assert_eq!(result, expected);
}

#[test]
fn matrix4f_applied_to_a_direction_and_a_position() {
    let m = m4([
        [1.0, 2.0, 3.0, 4.0],
        [2.0, 4.0, 4.0, 2.0],
        [8.0, 6.0, 4.0, 1.0],
        [0.0, 0.0, 0.0, 1.0],
    ]);
    let b = vec3(1.0, 2.0, 3.0);
    let c = apply(&m, b);
    let expected = vec3(14.0, 22.0, 32.0);
    assert!(same_vec(c, expected));
    let p = apply(&m, point(1.0, 2.0, 3.0));
    assert!(same_point(p, point(18.0, 24.0, 33.0)));
}

#[test]
fn matrix4f_identity_multiplication() {
    let m1 = m4([
        [1.0, 2.0, 3.0, 4.0],
        [5.0, 6.0, 7.0, 8.0],
        [9.0, 8.0, 7.0, 6.0],
        [5.0, 4.0, 3.0, 2.0],
    ]);
    let i = Matrix4f::identity();
    assert!(same_matrix(&mul(&m1, &i), &m1));
}

#[test]
fn matrix3f_minor() {
    let m = m3([[3.0, 5.0, 0.0], [2.0, -1.0, -7.0], [6.0, -1.0, 5.0]]);
    let d = minor3(&m, 1, 0);
    assert_eq!(d, 25.0);
}

#[test]
fn matrix3f_cofactor() {
    let m = m3([[3.0, 5.0, 0.0], [2.0, -1.0, -7.0], [6.0, -1.0, 5.0]]);
    let minor = minor3(&m, 0, 0);
    let minor2 = minor3(&m, 1, 0);

    assert_eq!(cofactor3(&m, 0, 0), minor); // even pos
    assert_eq!(cofactor3(&m, 1, 0), -minor2); // odd pos;
}

#[test]
fn matrix3f_determinant() {
    let m = m3([[1.0, 2.0, 6.0], [-5.0, 8.0, -4.0], [2.0, 6.0, 4.0]]);
    assert_eq!(det3(&m), -196.0);
}

#[test]
fn matrix4f_determinant() {
    let m = m4([
        [-2.0, -8.0, 3.0, 5.0],
        [-3.0, 1.0, 7.0, 3.0],
        [1.0, 2.0, -9.0, 6.0],
        [-6.0, 7.0, 7.0, -9.0],
    ]);

    assert_eq!(det4(&m), -4071.0);
}

#[test]
fn matrix4f_inversion() {
    let m = m4([
        [8.0, -5.0, 9.0, 2.0],
        [7.0, 5.0, 6.0, 1.0],
        [-6.0, 0.0, 9.0, 6.0],
        [-3.0, 0.0, -9.0, -4.0],
    ]);

    let expected = m4([
        [-0.15385, -0.15385, -0.28205, -0.53846],
        [-0.07692, 0.12308, 0.02564, 0.03077],
        [0.35897, 0.35897, 0.43590, 0.92308],
        [-0.69231, -0.69231, -0.76923, -1.92308],
    ]);

    let iv = invert(&m).unwrap();
    assert!(same_matrix(&iv, &expected));
}

#[test]
fn matrix4f_inversion_puts_each_cofactor_in_its_transposed_place() {
    let m = m4([
        [-5.0, 2.0, 6.0, -8.0],
        [1.0, -5.0, 1.0, 8.0],
        [7.0, 7.0, -6.0, -7.0],
        [1.0, -3.0, 7.0, 4.0],
    ]);
    let iv = invert(&m).unwrap();
    assert_eq!(det4(&m), 532.0);
    assert_eq!(cofactor4(&m, 2, 3), -160.0);
    assert_eq!(n(iv[(3, 2)]), -160.0 / 532.0);
    assert_eq!(cofactor4(&m, 3, 2), 105.0);
    assert_eq!(n(iv[(2, 3)]), 105.0 / 532.0);
}

#[test]
fn matrix4f_without_inverse() {
    let m = m4([
        [-4.0, 2.0, -2.0, -3.0],
        [9.0, 6.0, 2.0, 6.0],
        [0.0, -5.0, 1.0, -5.0],
        [0.0, 0.0, 0.0, 0.0],
    ]);
    assert_eq!(det4(&m), 0.0);
    assert!(invert(&m).is_none());
}

#[test]
fn matrix4f_inversion_undoes_multiplication() {
    let a = m4([
        [-2.0, -8.0, 3.0, 5.0],
        [-3.0, 1.0, 7.0, 3.0],
        [1.0, 2.0, -9.0, 6.0],
        [-6.0, 7.0, 7.0, -9.0],
    ]);
    let b = m4([
        [8.0, -5.0, 9.0, 2.0],
        [7.0, 5.0, 6.0, 1.0],
        [-6.0, 0.0, 9.0, 6.0],
        [-3.0, 0.0, -9.0, -4.0],
    ]);

    let c = mul(&a, &b);
    let ivb = invert(&b).unwrap();
    let a2 = mul(&c, &ivb);

    assert!(same_matrix(&a, &a2));
}

#[test]
fn matrix4f_identity_inverse_is_identity() {
    let i = Matrix4f::identity();
    assert!(same_matrix(&invert(&i).unwrap(), &i));
}

#[test]
fn matrix4f_multiplication_by_inverse_is_identity() {
    let b = m4([
        [8.0, -5.0, 9.0, 2.0],
        [7.0, 5.0, 6.0, 1.0],
        [-6.0, 0.0, 9.0, 6.0],
        [-3.0, 0.0, -9.0, -4.0],
    ]);

    let i = mul(&invert(&b).unwrap(), &b);
    assert!(same_matrix(&i, &Matrix4f::identity()));
}

#[test]
fn matrix4f_inverse_of_inverse_is_the_matrix() {
    let b = m4([
        [8.0, -5.0, 9.0, 2.0],
        [7.0, 5.0, 6.0, 1.0],
        [-6.0, 0.0, 9.0, 6.0],
        [-3.0, 0.0, -9.0, -4.0],
    ]);
    let twice = invert(&invert(&b).unwrap()).unwrap();
    assert!(same_matrix(&twice, &b));
    assert!(same_matrix(&mul(&b, &invert(&b).unwrap()), &Matrix4f::identity()));
}

#[test]
fn translates() {
    let t = translate(5.0, -3.0, 2.0);
    let p = point(-3.0, 4.0, 5.0);

    assert!(same_point(apply(&t, p), point(2.0, 1.0, 7.0)));
}

#[test]
fn inverse_of_translate_goes_in_opposite_direction() {
    let t = translate(5.0, -3.0, 2.0);
    let inv = invert(&t).unwrap();
    let p = point(-3.0, 4.0, 5.0);

    assert!(same_point(apply(&inv, p), point(-8.0, 7.0, 3.0)));
}

#[test]
fn vector_preserved_by_translation() {
    let t = translate(5.0, -3.0, 2.0);
    let p = vec3(-3.0, 4.0, 5.0);
    assert!(same_vec(apply(&t, p), p));
}

#[test]
fn scales_vector() {
    let t = scale(2.0, 3.0, 4.0);
    let p = vec3(1.0, 2.0, 3.0);
    assert!(same_vec(apply(&t, p), vec3(2.0, 6.0, 12.0)));
}

#[test]
fn inverse_of_scale_shrinks_vector() {
    let t = scale(2.0, 3.0, 4.0);
    let inv = invert(&t).unwrap();
    let p = vec3(4.0, 6.0, 8.0);
    assert!(same_vec(apply(&inv, p), vec3(2.0, 2.0, 2.0)));
}

#[test]
fn reflection_is_scaling_by_negative_value() {
    let t = scale(-1.0, 1.0, 1.0);
    let p = vec3(4.0, 6.0, 8.0);
    assert!(same_vec(apply(&t, p), vec3(-4.0, 6.0, 8.0)));
}

#[test]
fn rotation_around_x() {
    let p = point(0.0, 1.0, 0.0);
    let half_q = rotate_x(FRAC_PI_4);
    let full_q = rotate_x(FRAC_PI_2);

    assert!(same_point(
        apply(&half_q, p),
        point(0.0, f64::sqrt(2.0) / 2.0, f64::sqrt(2.0) / 2.0)
    ));
    assert!(same_point(apply(&full_q, p), point(0.0, 0.0, 1.0)));
}

#[test]
fn shear() {
    let t = Transformations::shear(f(1.0), f(0.0), f(0.0), f(0.0), f(0.0), f(0.0));
    let v = vec3(2.0, 3.0, 4.0);
    assert!(same_vec(apply(&t, v), vec3(5.0, 3.0, 4.0)));
}

#[test]
fn composing_transformations() {
    let chain = mul(
        &translate(10.0, 5.0, 7.0),
        &mul(&scale(5.0, 5.0, 5.0), &rotate_x(FRAC_PI_2)),
    );
    let p = apply(&chain, point(1.0, 0.0, 1.0));

    assert!(same_point(p, point(15.0, 0.0, 7.0)));
}

#[test]
fn view_transformation_for_default_orientation() {
    let t = view_transform(
        vec3(0.0, 0.0, 0.0),
        vec3(0.0, 0.0, -1.0),
        vec3(0.0, 1.0, 0.0),
    );
    assert!(same_matrix(&t, &Matrix4f::identity()));
}

#[test]
fn view_transformation_for_positive_z_axis() {
    let t = view_transform(
        vec3(0.0, 0.0, 0.0),
        vec3(0.0, 0.0, 1.0),
        vec3(0.0, 1.0, 0.0),
    );
    assert!(same_matrix(&t, &scale(-1.0, 1.0, -1.0)));
}

#[test]
fn view_transform_moves_world() {
    let t = view_transform(
        vec3(0.0, 0.0, 8.0),
        vec3(0.0, 0.0, 0.0),
        vec3(0.0, 1.0, 0.0),
    );
    assert!(same_matrix(&t, &translate(0.0, 0.0, -8.0)));
}

#[test]
fn ray_transformable() {
    {
        let r = Ray::new(point(1.0, 2.0, 3.0), vec3(0.0, 1.0, 0.0));
        let transformed_ray = transform_ray(&r, &translate(3.0, 4.0, 5.0));

        assert!(same_point(transformed_ray.origin(), point(4.0, 6.0, 8.0)));
        assert!(same_vec(transformed_ray.direction(), vec3(0.0, 1.0, 0.0)));
    }
    {
        let r = Ray::new(point(1.0, 2.0, 3.0), vec3(0.0, 1.0, 0.0));
        let transformed_ray = transform_ray(&r, &scale(2.0, 3.0, 4.0));

        assert!(same_point(transformed_ray.origin(), point(2.0, 6.0, 12.0)));
        assert!(same_vec(transformed_ray.direction(), vec3(0.0, 3.0, 0.0)));
    }
}

#[test]
fn intersection() {
    let s = Object::sphere();
    let ray = Ray::new(point(0.0, 0.0, -5.0), vec3(0.0, 0.0, 1.0));

    let mut intersections = Intersections::new();

    s.shape()
        .intersect(object_roots(&s, &ray), &s, &mut intersections);

    assert_eq!(intersections[0].object, &s);
    assert_eq!(intersections[1].object, &s);
}

#[test]
fn ray_sphere_intersection() {
    {
        let r = Ray::new(point(0.0, 0.0, -5.0), vec3(0.0, 0.0, 1.0));
        let s = Object::sphere();

        let mut i = Intersections::new();

        intersect(&s, &r, &mut i);

        assert_eq!(n(i[0].t), 4.0);
        assert_eq!(n(i[1].t), 6.0);
    }
    {
        let r = Ray::new(point(0.0, 1.0, -5.0), vec3(0.0, 0.0, 1.0));
        let s = Object::sphere();

        let mut i = Intersections::new();

        intersect(&s, &r, &mut i);

        assert_eq!(n(i[0].t), 5.0);
        assert_eq!(n(i[1].t), 5.0);
    }
    {
        let r = Ray::new(point(0.0, 2.0, -5.0), vec3(0.0, 0.0, 1.0));
        let s = Object::sphere();

        let mut i = Intersections::new();

        intersect(&s, &r, &mut i);

        assert_eq!(i.len(), 0);
    }
    {
        let r = Ray::new(point(0.0, 0.0, 0.0), vec3(0.0, 0.0, 1.0));
        let s = Object::sphere();

        let mut i = Intersections::new();

        intersect(&s, &r, &mut i);
        assert_eq!(n(i[0].t), -1.0);
        assert_eq!(n(i[1].t), 1.0);
    }
    {
        let r = Ray::new(point(0.0, 0.0, 5.0), vec3(0.0, 0.0, 1.0));
        let s = Object::sphere();

        let mut i = Intersections::new();

        intersect(&s, &r, &mut i);

        assert_eq!(n(i[0].t), -6.0);
        assert_eq!(n(i[1].t), -4.0);
    }
}

#[test]
fn can_change_sphere_transformation() {
    let mut s = Object::sphere();
    let t = translate(1.0, 2.0, 3.0);

    set_transformation(&mut s, t);

    assert_eq!(*s.transformation(), t);
    assert!(same_matrix(
        s.transformation_inverse(),
        &translate(-1.0, -2.0, -3.0)
    ));
    assert_eq!(
        *s.transformation_inverse_transposed(),
        s.transformation_inverse().transpose()
    );
}

#[test]
fn intersecting_scaled_sphere_with_ray() {
    let r = Ray::new(point(0.0, 0.0, -5.0), vec3(0.0, 0.0, 1.0));
    let mut s = Object::sphere();
    let mut i = Intersections::new();

    let t = scale(2.0, 2.0, 2.0);

    set_transformation(&mut s, t);
    intersect(&s, &r, &mut i);

    assert_eq!(i.len(), 2);
    assert_eq!(n(i[0].t), 3.0);
    assert_eq!(n(i[1].t), 7.0);
}

#[test]
fn intersecting_translated_sphere_with_ray() {
    let r = Ray::new(point(0.0, 0.0, -5.0), vec3(0.0, 0.0, 1.0));
    let mut s = Object::sphere();
    let mut i = Intersections::new();

    set_transformation(&mut s, translate(5.0, 0.0, 0.0));
    intersect(&s, &r, &mut i);

    assert_eq!(i.len(), 0);
}

#[test]
fn normal_on_translated_sphere() {
    let mut s = Object::sphere();
    set_transformation(&mut s, translate(0.0, 1.0, 0.0));
    let nv = normal_at(&s, point(0.0, 1.70711, -0.70711));
    assert!(same_vec(nv, vec3(0.0, 0.70711, -0.70711)));
    assert!(near(magnitude(nv), 1.0));
}

#[test]
fn normal_on_transformed_sphere() {
    let mut s = Object::sphere();
    let m = mul(&scale(1.0, 0.5, 1.0), &rotate_z(PI / 5.0));
    set_transformation(&mut s, m);
    let nv = normal_at(
        &s,
        point(0.0, f64::sqrt(2.0) / 2.0, -f64::sqrt(2.0) / 2.0),
    );
    assert!(same_vec(nv, vec3(0.0, 0.97014, -0.24254)));
    assert!(near(magnitude(nv), 1.0));
}

#[test]
fn light_with_eye_between_normal_and_source() {
    let (m, p) = (Material::default(), Point::zero());

    let eyev = vec3(0.0, 0.0, -1.0);
    let normalv = vec3(0.0, 0.0, -1.0);
    let light = PointLight::new(point(0.0, 0.0, -10.0), color(1.0, 1.0, 1.0));

    let result = lighting(m, &light, p, eyev, normalv);

    assert!(same_color(result, color(1.9, 1.9, 1.9)));
}

#[test]
fn light_with_eye_offset_45_deg_normal_unchanged() {
    let (m, p) = (Material::default(), Point::zero());
    let eyev = vec3(0.0, SQRT_2 / 2.0, -SQRT_2 / 2.0);
    let normalv = vec3(0.0, 0.0, -1.0);
    let light = PointLight::new(point(0.0, 0.0, -10.0), color(1.0, 1.0, 1.0));

    let result = lighting(m, &light, p, eyev, normalv);

    assert!(same_color(result, color(1.0, 1.0, 1.0)));
}

#[test]
fn lighting_with_eye_opposite_surface_light_45deg() {
    let (m, p) = (Material::default(), Point::zero());

    let eyev = vec3(0.0, 0.0, -1.0);
    let normalv = vec3(0.0, 0.0, -1.0);
    let light = PointLight::new(point(0.0, 10.0, -10.0), color(1.0, 1.0, 1.0));

    let result = lighting(m, &light, p, eyev, normalv);

    assert!(same_color(result, color(0.7364, 0.7364, 0.7364)));
}

#[test]
fn lighting_with_eye_in_path_of_reflection_vector() {
    let (m, p) = (Material::default(), Point::zero());
    let eyev = vec3(0.0, -SQRT_2 / 2.0, -SQRT_2 / 2.0);
    let normalv = vec3(0.0, 0.0, -1.0);
    let light = PointLight::new(point(0.0, 10.0, -10.0), color(1.0, 1.0, 1.0));

    let result = lighting(m, &light, p, eyev, normalv);

    assert!(same_color(result, color(1.6364, 1.6364, 1.6364)));
}

#[test]
fn lighting_with_eye_behind_surface() {
    let (m, p) = (Material::default(), Point::zero());
    let eyev = vec3(0.0, 0.0, -1.0);
    let normalv = vec3(0.0, 0.0, -1.0);
    let light = PointLight::new(point(0.0, 0.0, 10.0), color(1.0, 1.0, 1.0));

    let result = lighting(m, &light, p, eyev, normalv);

    assert!(same_color(result, color(0.1, 0.1, 0.1)));
}

#[test]
fn default_world() {
    let light_source = PointLight::new(point(-10.0, 10.0, -10.0), Color::white());
    let (s1, s2) = default_world_objects();

    let w = default_world_of();

    assert_eq!(w.light_sources().len(), 1);
    assert_eq!(w.objects().len(), 2);
    assert_eq!(*w.light_sources().first().unwrap(), light_source);
    assert_eq!(w.objects()[0], s1);
    assert_eq!(w.objects()[1], s2);
    assert_eq!(World::default_inner_transformation(), scale(0.5, 0.5, 0.5));
    assert!(same_matrix(
        w.objects()[1].transformation_inverse(),
        &scale(2.0, 2.0, 2.0)
    ));
}

#[test]
fn intersect_world_with_ray() {
    let w = default_world_of();
    let r = Ray::new(point(0.0, 0.0, -5.0), vec3(0.0, 0.0, 1.0));
    let xs = intersect_world(&w, &r);

    assert_eq!(xs.len(), 4);
    assert_eq!(n(xs[0].t), 4.0);
    assert_eq!(n(xs[1].t), 4.5);
    assert_eq!(n(xs[2].t), 5.5);
    assert_eq!(n(xs[3].t), 6.0);
}

#[test]
fn shading_an_intersection_from_outside() {
    let w = default_world_of();
    let r = Ray::new(point(0.0, 0.0, -5.0), vec3(0.0, 0.0, 1.0));
    let shape = w.objects().first().unwrap();
    let i = Intersection::new(f(4.0), shape);
    let comps = prepare(i, &r);
    let c = shade_hit(&w, comps);
    assert!(same_color(c, color(0.38066, 0.47583, 0.2855)));
}

#[test]
fn color_when_ray_misses() {
    let w = default_world_of();
    let r = Ray::new(point(0.0, 0.0, -5.0), vec3(0.0, 1.0, 0.0));
    let c = color_at(&w, r);
    assert!(same_color(c, Color::black()));
}

#[test]
fn color_when_ray_hits() {
    let w = default_world_of();
    let r = Ray::new(point(0.0, 0.0, -5.0), vec3(0.0, 0.0, 1.0));
    let c = color_at(&w, r);
    assert!(same_color(c, color(0.38066, 0.47583, 0.2855)));
}

#[test]
fn color_with_intersection_behind_ray() {
    let mut w = default_world_of();
    let mut outer = w.objects[0];
    let mut inner = w.objects[1];
    outer.set_material(Material {
        ambient: f(1.0),
        ..outer.material()
    });
    inner.set_material(Material {
        ambient: f(1.0),
        ..inner.material()
    });

    w.objects[0] = outer;
    w.objects[1] = inner;

    let r = Ray::new(point(0.0, 0.0, 0.75), vec3(0.0, 0.0, -1.0));
    let c = color_at(&w, r);

    assert!(same_color(c, inner.material().color));
}
