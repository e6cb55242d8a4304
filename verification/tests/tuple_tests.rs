// Tuple algebra, exercised through the fixed-point kernel: one unit of
// 10_000_000 stands for the real number one.

use rust_tracer::common::f_equal;
use rust_tracer::tuple::{Kind, Tuple};

const U: i64 = 10_000_000;

#[test]
fn tuple_is_a_vector() {
    let v = Tuple::vector(U, 2 * U, 3 * U);
    assert!(v.kind == Kind::Vector, "The 'w' field of a vector should be 0");
}

#[test]
fn tuple_is_a_point() {
    let p = Tuple::point(U, 2 * U, 3 * U);
    assert!(p.kind == Kind::Point, "The 'w' field of a point should be 1");
}

#[test]
fn tuple_is_a_color() {
    let c = Tuple::color(-U / 2, 4_000_000, 17_000_000);
    assert!(
        c.x == -5_000_000 && c.y == 4_000_000 && c.z == 17_000_000 && c.kind == Kind::Color,
        "r = {}, g = {}, b = {}",
        c.x,
        c.y,
        c.z
    );
}

#[test]
fn vectors_are_equal() {
    let a = Tuple::vector(10_000_010, 2 * U, 3 * U);
    let b = Tuple::vector(U, 2 * U, 3 * U);
    let x: bool = a == b;
    assert_eq!(true, x, "The vectors a and b should be equal = true, value was {}", x);
}

#[test]
fn colors_are_equal() {
    let c1 = Tuple::color(5_000_000, 2_000_000, 3_000_000);
    let c2 = Tuple::color(5_000_000, 2_000_000, 3_000_000);
    let x: bool = c1 == c2;
    assert_eq!(true, x, "The colors a and b should be equal = true, value was {}", x);
}

#[test]
fn add_vector_and_point() {
    let p = Tuple::point(3 * U, -2 * U, 5 * U);
    let v = Tuple::vector(-2 * U, 3 * U, U);
    let y: Tuple = p.add(&v).unwrap();
    let x: bool = Tuple::point(U, U, 6 * U) == y;
    assert_eq!(true, x, "The sum of the point and vector should equal (1, 1, 6, 1), value was {:#?}", y);
}

#[test]
fn add_two_colors() {
    let c1 = Tuple::color(5_000_000, 2_000_000, 3_000_000);
    let c2 = Tuple::color(5_000_000, 2_000_000, 3_000_000);
    let c3 = c1.add(&c2).unwrap();
    let x = Tuple::color(U, 4_000_000, 6_000_000) == c3;
    assert_eq!(true, x, "The sum of the colors equal (1.0, 0.4, 0.6), value was {:#?}", x);
}

#[test]
fn subtract_two_points() {
    let p1 = Tuple::point(3 * U, 2 * U, U);
    let p2 = Tuple::point(5 * U, 6 * U, 7 * U);
    let y: Tuple = p1.sub(&p2).unwrap();
    let expected = Tuple::vector(-2 * U, -4 * U, -6 * U);
    let x: bool = expected == y;
    assert_eq!(true, x, "The difference between the two points should equal {:#?}, value was {:#?}", expected, y);
}

#[test]
fn subtract_two_colors() {
    let c1 = Tuple::color(5_000_000, 2_000_000, 3_000_000);
    let c2 = Tuple::color(3_000_000, 1_000_000, 1_000_000);
    let c3 = c1.sub(&c2).unwrap();
    let x = Tuple::color(2_000_000, 1_000_000, 2_000_000) == c3;
    assert_eq!(true, x, "The difference of the colors equal (1.0, 0.4, 0.6), value was {:#?}", x);
}

#[test]
fn subtract_vector_from_point() {
    let p = Tuple::point(3 * U, 2 * U, U);
    let v = Tuple::vector(5 * U, 6 * U, 7 * U);
    let y: Tuple = p.sub(&v).unwrap();
    let expected: Tuple = Tuple::point(-2 * U, -4 * U, -6 * U);
    let x: bool = expected == y;
    assert_eq!(true, x, "The difference between the two points should equal {:#?}, value was {:#?}", expected, y);
}

#[test]
fn subtract_two_vectors() {
    let p1 = Tuple::vector(3 * U, 2 * U, U);
    let p2 = Tuple::vector(5 * U, 6 * U, 7 * U);
    let y: Tuple = p1.sub(&p2).unwrap();
    let expected: Tuple = Tuple::vector(-2 * U, -4 * U, -6 * U);
    let x: bool = expected == y;
    assert_eq!(true, x, "The difference between the two points should equal {:#?}, value was {:#?}", expected, y);
}

#[test]
fn negate_tuple() {
    let p = Tuple::point(3 * U, -2 * U, U);
    let expected = Tuple::point(-3 * U, 2 * U, -U);
    let y: Tuple = p.neg();
    let x: bool = expected == y;
    assert_eq!(true, x, "The negation of the tuple should equal {:#?}, value was {:#?}", expected, y);
}

#[test]
fn negate_tuple_no_moving() {
    let p = Tuple::point(3 * U, -2 * U, U);
    let expected = Tuple::point(-3 * U, 2 * U, -U);
    let y: Tuple = p.neg();
    let x: bool = expected == y;
    assert_eq!(true, x, "The negation of the tuple should equal {:#?}, value was {:#?}", expected, y);
}

#[test]
fn multiply_tuple_by_scalar() {
    let p = Tuple::point(3 * U, -2 * U, U);
    let expected = Tuple::point(105_000_000, -7 * U, 35_000_000);
    let output: Tuple = p.mul(35_000_000);
    let r: bool = expected == output;
    assert_eq!(true, r, "The multiplication of the tuple and scalar should equal {:#?}, value was {:#?}", expected, output);
}

#[test]
fn multiply_tuple_by_fraction() {
    let p = Tuple::point(3 * U, -2 * U, U);
    let expected = Tuple::point(15_000_000, -U, 5_000_000);
    let output: Tuple = p.mul(5_000_000);
    let r: bool = expected == output;
    assert_eq!(true, r, "The multiplication of the tuple and fraction should equal {:#?}, value was {:#?}", expected, output);
}

#[test]
fn multiply_color_by_scalar() {
    let c = Tuple::color(7_000_000, 4_000_000, 3_000_000);
    let expected = Tuple::color(14_000_000, 8_000_000, 6_000_000);
    let output: Tuple = c.mul(2 * U);
    let r: bool = expected == output;
    assert_eq!(true, r, "The multiplication of the color and scalar should equal {:#?}, value was {:#?}", expected, output);
}

#[test]
fn divide_tuple_by_scalar() {
    let p = Tuple::point(3 * U, -2 * U, U);
    let expected = Tuple::point(6 * U, -4 * U, 2 * U);
    let output: Tuple = p.div(5_000_000).unwrap();
    let r: bool = expected == output;
    assert_eq!(true, r, "The division of the tuple and scalar should equal {:#?}, value was {:#?}", expected, output);
}

#[test]
fn magnitude_of_1_dim_vec() {
    let v = Tuple::vector(U, 0, 0);
    let expected: i64 = U;
    let output = v.mag();
    let r: bool = f_equal(expected, output);
    assert_eq!(true, r, "The magnitude of the vector should equal {:#?}, value was {:#?}", expected, output);
}

#[test]
fn magnitude_of_vector() {
    let v = Tuple::vector(U, -2 * U, 3 * U);
    let expected: i64 = 37_416_500;
    let output = v.mag();
    let r: bool = f_equal(expected, output);
    assert_eq!(true, r, "The magnitude of the vector should equal {:#?}, value was {:#?}", expected, output);
}

#[test]
fn normalize_1_dim_vec() {
    let v = Tuple::vector(4 * U, 0, 0);
    let expected = Tuple::vector(U, 0, 0);
    let output: Tuple = v.norm().unwrap();
    let r: bool = expected == output;
    assert_eq!(true, r, "The normalized vector should equal {:#?}, value was {:#?}", expected, output);
}

#[test]
fn normalize_vec() {
    let v = Tuple::vector(U, 2 * U, 3 * U);
    let expected = Tuple::vector(2_672_600, 5_345_200, 8_017_800);
    let output: Tuple = v.norm().unwrap();
    let r: bool = expected == output;
    assert_eq!(true, r, "The normalized vector should equal {:#?}, value was {:#?}", expected, output);
}

#[test]
fn mag_of_normalized_vector() {
    let v = Tuple::vector(U, 2 * U, 3 * U);
    let expected: i64 = U;
    let nv = v.norm().unwrap();
    let output = nv.mag();
    let r: bool = f_equal(expected, output);
    assert_eq!(true, r, "The magnitude of the vector should equal {:#?}, value was {:#?}", expected, output);
}

#[test]
fn dot_product_of_vector() {
    let v1 = Tuple::vector(U, 2 * U, 3 * U);
    let v2 = Tuple::vector(2 * U, 3 * U, 4 * U);
    let expected: i64 = 20 * U;
    let output = v1.dot(&v2).unwrap();
    let r: bool = expected == output;
    assert_eq!(true, r, "The dot product of the vectors should equal {:#?}, value was {:#?}", expected, output);
}

#[test]
fn hadamard_product_of_two_colors() {
    let c1 = Tuple::color(U, 2 * U, 3 * U);
    let c2 = Tuple::color(2 * U, 3 * U, 4 * U);
    let expected = Tuple::color(2 * U, 6 * U, 12 * U);
    let output = c1.hadamard_product(c2).unwrap();
    let r: bool = expected == output;
    assert_eq!(true, r, "The dot product of the vectors should equal {:#?}, value was {:#?}", expected, output);
}

#[test]
fn cross_product_of_vector() {
    let v1 = Tuple::vector(U, 2 * U, 3 * U);
    let v2 = Tuple::vector(2 * U, 3 * U, 4 * U);
    let expected = Tuple::vector(-U, 2 * U, -U);
    let output = v1.cross(v2).unwrap();
    let r: bool = expected == output;
    assert_eq!(true, r, "The cross product of the vectors should equal {:#?}, value was {:#?}", expected, output);
}

#[test]
fn cross_product_of_vector_reverse() {
    let v1 = Tuple::vector(U, 2 * U, 3 * U);
    let v2 = Tuple::vector(2 * U, 3 * U, 4 * U);
    let expected = Tuple::vector(U, -2 * U, U);
    let output = v2.cross(v1).unwrap();
    let r: bool = expected == output;
    assert_eq!(true, r, "The cross product of the vectors should equal {:#?}, value was {:#?}", expected, output);
}
