// Rays, ray-sphere intersection and hit selection.

use rust_tracer::intersection::Intersection;
use rust_tracer::matrix::Matrix;
use rust_tracer::ray::Ray;
use rust_tracer::sphere::Sphere;
use rust_tracer::tuple::Tuple;

const U: i64 = 10_000_000;

#[test]
fn create_ray() {
    let p = Tuple::point(U, 2 * U, 3 * U);
    let v = Tuple::vector(4 * U, 5 * U, 6 * U);
    let r = Ray::new(p, v).unwrap();
    assert!(r.direction == v && r.origin == p, "The creation of the ray was not valid.");
}

#[test]
fn compute_point_from_distance() {
    let p = Tuple::point(2 * U, 3 * U, 4 * U);
    let v = Tuple::vector(U, 0, 0);
    let r = Ray::new(p, v).unwrap();
    let result1 = r.position(0);
    let result2 = r.position(U);
    let result3 = r.position(-U);
    let result4 = r.position(25_000_000);
    let expected1 = Tuple::point(2 * U, 3 * U, 4 * U);
    let expected2 = Tuple::point(3 * U, 3 * U, 4 * U);
    let expected3 = Tuple::point(U, 3 * U, 4 * U);
    let expected4 = Tuple::point(45_000_000, 3 * U, 4 * U);
    assert!(
        result1 == expected1 && result2 == expected2 && result3 == expected3
            && result4 == expected4,
        "The position was not calculated correctly."
    );
}

#[test]
fn compute_ray_sphere_intersect() {
    let r = Ray::new(Tuple::point(0, 0, -5 * U), Tuple::vector(0, 0, U)).unwrap();
    let s = Sphere::new();
    let result = r.intersect(&s).unwrap().unwrap();
    let expected = vec![
        Intersection::new(4 * U, s.clone()),
        Intersection::new(6 * U, s.clone()),
    ];
    assert!(
        (result[0].t == expected[0].t) && (result[1].t == expected[1].t),
        "The t values of the intersection were not calculated correctly!"
    );
}

#[test]
fn compute_ray_sphere_tangent_intersect() {
    let r = Ray::new(Tuple::point(0, U, -5 * U), Tuple::vector(0, 0, U)).unwrap();
    let s = Sphere::new();
    let result = r.intersect(&s).unwrap().unwrap();
    let expected = vec![
        Intersection::new(5 * U, s.clone()),
        Intersection::new(5 * U, s.clone()),
    ];
    assert!(
        (result[0].t == expected[0].t) && (result[1].t == expected[1].t),
        "The t values of the intersection were not calculated correctly!"
    );
}

#[test]
fn compute_no_ray_sphere_intersect() {
    let r = Ray::new(Tuple::point(0, 2 * U, -5 * U), Tuple::vector(0, 0, U)).unwrap();
    let s = Sphere::new();
    let result = r.intersect(&s).unwrap();
    assert!(
        result.is_none(),
        "The result was not None, meaning there was an intersection found when there isn't supposed to be an intersection."
    );
}

#[test]
fn compute_ray_originating_in_sphere_interesect() {
    let r = Ray::new(Tuple::point(0, 0, 0), Tuple::vector(0, 0, U)).unwrap();
    let s = Sphere::new();
    let result = r.intersect(&s).unwrap().unwrap();
    let expected = vec![
        Intersection::new(-U, s.clone()),
        Intersection::new(U, s.clone()),
    ];
    assert!(
        (result[0].t == expected[0].t) && (result[1].t == expected[1].t),
        "The t values of the intersection were not calculated correctly!"
    );
}

#[test]
fn compute_sphere_behind_ray_intersect() {
    let r = Ray::new(Tuple::point(0, 0, 5 * U), Tuple::vector(0, 0, U)).unwrap();
    let s = Sphere::new();
    let result = r.intersect(&s).unwrap().unwrap();
    let expected = vec![
        Intersection::new(-6 * U, s.clone()),
        Intersection::new(-4 * U, s.clone()),
    ];
    assert!(
        (result[0].t == expected[0].t) && (result[1].t == expected[1].t),
        "The t values of the intersection were not calculated correctly!"
    );
}

#[test]
fn intersect_sets_object_on_intersection() {
    let r = Ray::new(Tuple::point(0, 0, -5 * U), Tuple::vector(0, 0, U)).unwrap();
    let s = Sphere::new();
    let result = r.intersect(&s).unwrap().unwrap();
    assert!(
        result[0].object == s,
        "The object was not set correctly in the intersect function."
    );
}

#[test]
fn find_hit_all_positive() {
    let s = Sphere::new();
    let i1 = Intersection::new(U, s.clone());
    let i2 = Intersection::new(2 * U, s.clone());
    let is = vec![i1, i2];
    let result = Ray::hit(&is).unwrap();
    let expected = Intersection::new(U, s.clone());
    assert!(result.t == expected.t, "The expected intersection was not returned.");
}

#[test]
fn find_hit_one_negative_one_positive() {
    let s = Sphere::new();
    let i1 = Intersection::new(-U, s.clone());
    let i2 = Intersection::new(U, s.clone());
    let is = vec![i1, i2];
    let result = Ray::hit(&is).unwrap();
    let expected = Intersection::new(U, s.clone());
    assert!(result.t == expected.t, "The expected intersection was not returned.");
}

#[test]
fn find_hit_all_negative() {
    let s = Sphere::new();
    let i1 = Intersection::new(-2 * U, s.clone());
    let i2 = Intersection::new(-U, s.clone());
    let is = vec![i1, i2];
    let result = Ray::hit(&is);
    assert!(result.is_none(), "The expected intersection was not returned.");
}

#[test]
fn find_hit_many_intersections() {
    let s = Sphere::new();
    let i1 = Intersection::new(5 * U, s.clone());
    let i2 = Intersection::new(7 * U, s.clone());
    let i3 = Intersection::new(-3 * U, s.clone());
    let i4 = Intersection::new(2 * U, s.clone());
    let is = vec![i1, i2, i3, i4];
    let result = Ray::hit(&is).unwrap();
    let expected = Intersection::new(2 * U, s.clone());
    assert!(result.t == expected.t, "The expected intersection was not returned.");
}

#[test]
fn find_hit_of_empty_set() {
    let is: Vec<Intersection> = Vec::new();
    assert!(Ray::hit(&is).is_none());
}

#[test]
fn translate_ray() {
    let r = Ray::new(Tuple::point(U, 2 * U, 3 * U), Tuple::vector(0, U, 0)).unwrap();
    let m = Matrix::translation(3 * U, 4 * U, 5 * U);
    let result = r.transform(m).unwrap();
    let expected_origin = Tuple::point(4 * U, 6 * U, 8 * U);
    let expected_direction = Tuple::vector(0, U, 0);
    assert!(
        result.origin == expected_origin && result.direction == expected_direction,
        "The ray was not translated correctly."
    );
}

#[test]
fn scale_ray() {
    let r = Ray::new(Tuple::point(U, 2 * U, 3 * U), Tuple::vector(0, U, 0)).unwrap();
    let m = Matrix::scaling(2 * U, 3 * U, 4 * U);
    let result = r.transform(m).unwrap();
    let expected_origin = Tuple::point(2 * U, 6 * U, 12 * U);
    let expected_direction = Tuple::vector(0, 3 * U, 0);
    assert!(
        result.origin == expected_origin && result.direction == expected_direction,
        "The ray was not scaled correctly."
    );
}

#[test]
fn intersect_scaled_sphere_with_ray() {
    let r = Ray::new(Tuple::point(0, 0, -5 * U), Tuple::vector(0, 0, U)).unwrap();
    let mut s = Sphere::new();
    s.transform = Matrix::scaling(2 * U, 2 * U, 2 * U);
    let result = r.intersect(&s).unwrap().unwrap();
    assert!(
        result[0].t == 3 * U && result[1].t == 7 * U,
        "The intersection with the scaled sphere was not correct."
    );
}

#[test]
fn intersect_translated_sphere_with_ray() {
    let r = Ray::new(Tuple::point(0, 0, -5 * U), Tuple::vector(0, 0, U)).unwrap();
    let mut s = Sphere::new();
    s.transform = Matrix::translation(5 * U, 5 * U, 5 * U);
    let result = r.intersect(&s).unwrap();
    assert!(
        result.is_none(),
        "The sphere incorrectly has an intersectin with the ray. No intersection expected."
    );
}
