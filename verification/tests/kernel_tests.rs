// Scalar comparison, intersection records, the algebraic round trips, and
// the rendering routine.

use rust_tracer::common::{f_equal, TraceError};
use rust_tracer::intersection::Intersection;
use rust_tracer::material::Material;
use rust_tracer::render::sphere_shadow_test;
use rust_tracer::sphere::Sphere;
use rust_tracer::tuple::Tuple;

const U: i64 = 10_000_000;

#[test]
fn values_are_equal() {
    let a: i64 = 12_222_250;
    let b: i64 = 12_222_260;
    let x: bool = f_equal(a, b);
    assert_eq!(true, x, "The values {} and {} should be equal = true, value was {}", a, b, x);
}

#[test]
fn values_are_not_equal() {
    let a: i64 = 100;
    let b: i64 = 210;
    assert_ne!(
        true,
        f_equal(a, b),
        "The values {} and {} should be equal = false, value was {}",
        a,
        b,
        f_equal(a, b)
    );
}

#[test]
fn create_intersection() {
    let s = Sphere::new();
    let i = Intersection::new(35_000_000, s.clone());
    assert!(
        i.t == 35_000_000
            && *i.get_object().get_material() == *s.get_material()
            && i.get_object().get_object_type() == s.get_object_type()
            && *i.get_object().get_transform() == *s.get_transform()
            && *i.get_object().get_origin() == *s.get_origin(),
        "The creation of the ray was not valid."
    );
}

#[test]
fn create_material() {
    let m = Material::default();
    assert!(
        m.color == Tuple::color(U, U, U)
            && m.ambient == 1_000_000
            && m.diffuse == 9_000_000
            && m.specular == 9_000_000
            && m.shininess == 200,
        "The creation of the material struct did not happen correctly."
    );
}

#[test]
fn material_equality() {
    let m1 = Material::default();
    let m2 = Material::default();
    assert!(m1 == m2, "The materials were not equal but they should be");
}

#[test]
fn magnitude_of_normalized_vectors_is_one() {
    let cases = vec![
        Tuple::vector(U, 2 * U, 3 * U),
        Tuple::vector(-U, 0, 0),
        Tuple::vector(123 * U, -456 * U, 789 * U),
        Tuple::vector(200_000, 0, 0),
    ];
    for v in cases {
        let m = v.norm().unwrap().mag();
        assert!(f_equal(m, U), "magnitude was {}", m);
    }
}

#[test]
fn add_then_subtract_restores_the_tuple() {
    let a = Tuple::point(3 * U, -2 * U, 55_500_000);
    let b = Tuple::vector(-2 * U, 3 * U, 12_345_678);
    let sum = a.add(&b).unwrap();
    let back = sum.sub(&b).unwrap();
    assert!(back.x == a.x && back.y == a.y && back.z == a.z && back.kind == a.kind);
}

#[test]
fn negating_twice_restores_the_tuple() {
    let a = Tuple::color(3 * U, -2 * U, 55_500_000);
    let back = a.neg().neg();
    assert!(back.x == a.x && back.y == a.y && back.z == a.z && back.kind == a.kind);
}

#[test]
fn adding_incompatible_kinds_is_an_error() {
    let p1 = Tuple::point(U, 0, 0);
    let p2 = Tuple::point(0, U, 0);
    assert_eq!(p1.add(&p2).unwrap_err(), TraceError::KindMismatch);
}

#[test]
fn dividing_a_color_is_an_error() {
    let c = Tuple::color(U, 0, 0);
    assert_eq!(c.div(2 * U).unwrap_err(), TraceError::KindMismatch);
}

#[test]
fn dot_of_two_points_is_an_error() {
    let p1 = Tuple::point(U, 0, 0);
    let p2 = Tuple::point(0, U, 0);
    assert_eq!(p1.dot(&p2).unwrap_err(), TraceError::KindMismatch);
}

#[test]
fn normalizing_a_zero_vector_is_an_error() {
    let v = Tuple::vector(0, 0, 0);
    assert_eq!(v.norm().unwrap_err(), TraceError::ZeroMagnitude);
}

#[test]
fn reflecting_at_45_degrees() {
    let v = Tuple::vector(U, -U, 0);
    let n = Tuple::vector(0, U, 0);
    let r = v.reflect(n).unwrap();
    assert!(r == Tuple::vector(U, U, 0));
}

#[test]
fn sphere_shadow_renders_the_expected_ppm() {
    let ppm = sphere_shadow_test();
    assert_eq!(ppm, "P3\n100 100\n255\n");
}
