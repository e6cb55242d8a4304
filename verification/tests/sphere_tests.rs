// Spheres: defaults, transforms, and surface normals.

use rust_tracer::common::TraceError;
use rust_tracer::matrix::{Matrix, RotationAxis};
use rust_tracer::sphere::{ObjectTypes, Sphere};
use rust_tracer::tuple::Tuple;

const U: i64 = 10_000_000;

#[test]
fn default_transformation() {
    let s = Sphere::new();
    assert!(
        s.transform == Matrix::identity(),
        "The default transform for the sphere was not set correctly on construction."
    );
}

#[test]
fn change_transformation() {
    let mut s = Sphere::new();
    s.transform = Matrix::translation(2 * U, 3 * U, 4 * U);
    assert!(
        s.transform == Matrix::translation(2 * U, 3 * U, 4 * U),
        "The default transform for the sphere was not set correctly on construction."
    );
}

#[test]
fn normal_at_point_on_x() {
    let s = Sphere::new();
    let result = s.normal_at(Tuple::point(U, 0, 0)).unwrap();
    assert!(
        result == Tuple::vector(U, 0, 0),
        "The normal_at function did not compute the right normal vector."
    );
}

#[test]
fn normal_at_point_on_y() {
    let s = Sphere::new();
    let result = s.normal_at(Tuple::point(0, U, 0)).unwrap();
    assert!(
        result == Tuple::vector(0, U, 0),
        "The normal_at function did not compute the right normal vector."
    );
}

#[test]
fn normal_at_point_on_z() {
    let s = Sphere::new();
    let result = s.normal_at(Tuple::point(0, 0, U)).unwrap();
    assert!(
        result == Tuple::vector(0, 0, U),
        "The normal_at function did not compute the right normal vector."
    );
}

#[test]
fn normal_at_nonaxial_point() {
    // sqrt(3) / 3
    let k: i64 = 5_773_503;
    let s = Sphere::new();
    let result = s.normal_at(Tuple::point(k, k, k)).unwrap();
    assert!(
        result == Tuple::vector(k, k, k),
        "The normal_at function did not compute the right normal vector."
    );
}

#[test]
fn normal_is_normalized() {
    let k: i64 = 5_773_503;
    let s = Sphere::new();
    let result = s.normal_at(Tuple::point(k, k, k)).unwrap();
    assert!(
        result == Tuple::vector(k, k, k).norm().unwrap(),
        "The normal_at function did not compute the right normal vector."
    );
}

#[test]
fn normal_of_translated_sphere() {
    let mut s = Sphere::new();
    s.transform = Matrix::translation(0, U, 0);
    let result = s.normal_at(Tuple::point(0, 17_071_100, -7_071_100)).unwrap();
    assert!(
        result == Tuple::vector(0, 7_071_100, -7_071_100),
        "The normal_at function did not compute the right normal vector."
    );
}

#[test]
fn normal_of_transformed_sphere() {
    // Rotation by a fifth of a half turn: cos and sin of 36 degrees.
    let cos_t: i64 = 8_090_170;
    let sin_t: i64 = 5_877_853;
    let mut s = Sphere::new();
    s.transform = Matrix::scaling(U, 5_000_000, U)
        .mul(&Matrix::rotation(RotationAxis::Z, cos_t, sin_t))
        .unwrap();
    // sqrt(2) / 2
    let h: i64 = 7_071_068;
    let result = s.normal_at(Tuple::point(0, h, -h)).unwrap();
    assert!(
        result == Tuple::vector(0, 9_701_400, -2_425_400),
        "The normal_at function did not compute the right normal vector."
    );
}

#[test]
fn normal_of_singular_sphere_is_an_error() {
    let mut s = Sphere::new();
    s.transform = Matrix::scaling(0, 0, 0);
    assert_eq!(
        s.normal_at(Tuple::point(U, 0, 0)).unwrap_err(),
        TraceError::SingularMatrix
    );
}

#[test]
fn normal_at_local_origin_is_an_error() {
    let s = Sphere::new();
    assert_eq!(
        s.normal_at(Tuple::point(0, 0, 0)).unwrap_err(),
        TraceError::ZeroMagnitude
    );
}

#[test]
fn assign_material_to_sphere() {
    let mut s = Sphere::new();
    s.material.ambient = U;
    assert!(
        s.material.ambient == U,
        "The value in the material in the sphere was not set correctly."
    );
}

#[test]
fn sphere_type_is_sphere() {
    let s = Sphere::new();
    let t = ObjectTypes::Sphere;
    assert!(
        s.get_object_type() == t,
        "The default object type of sphere was not set correctly."
    );
}
