// The canvas and its PPM serialization.

use rust_tracer::canvas::{create_ppm_body, create_ppm_header, Canvas};
use rust_tracer::tuple::Tuple;

const U: i64 = 10_000_000;

#[test]
fn create_canvas() {
    let c = Canvas::new(10, 20);
    let length = c.pixels.len();
    assert!(
        c.width == 10 && c.height == 20 && length == 200,
        "Result: width = {}, height = {}, length = {}",
        c.width,
        c.height,
        length
    );
}

#[test]
fn update_pixel_color() {
    let mut c = Canvas::new(10, 20);
    let new_pixel = Tuple::color(U, U, U);
    c.write_pixel(9, 19, new_pixel);
    let p = c.pixel_at(9, 19);
    assert!(
        p == Tuple::color(U, U, U),
        "Result: R = {}, G = {}, B = {}; Expected: R = 1.0, G = 1.0, B = 1.0",
        p.x,
        p.y,
        p.z
    );
}

#[test]
fn construct_ppm_header() {
    let c = Canvas::new(5, 3);
    let ppm = c.canvas_to_ppm();
    assert!(
        ppm == "P3\n5 3\n255\n",
        "Result: PPM = \n{}Expected: PPM = \nP3\n5 3\n255",
        ppm
    );
}

#[test]
fn costruct_ppm_body() {
    let mut c = Canvas::new(5, 3);
    let c1 = Tuple::color(15_000_000, 0, 0);
    let c2 = Tuple::color(0, 5_000_000, 0);
    let c3 = Tuple::color(-5_000_000, 0, U);
    c.write_pixel(0, 0, c1);
    c.write_pixel(2, 1, c2);
    c.write_pixel(4, 2, c3);
    let ppm = create_ppm_body(&c.pixels, c.width);
    let row1 = String::from("255 0 0 0 0 0 0 0 0 0 0 0 0 0 0\n");
    let row2 = String::from("0 0 0 0 0 0 0 128 0 0 0 0 0 0 0\n");
    let row3 = String::from("0 0 0 0 0 0 0 0 0 0 0 0 0 0 255\n");
    let exp = row1 + &row2 + &row3;
    assert!(ppm == exp, "\nResult: PPM = \n{:?}\nExpected: PPM = \n{:?}", ppm, exp);
}

#[test]
fn construct_ppm_body_line_break() {
    let mut c = Canvas::new(10, 2);
    let color = Tuple::color(U, 8_000_000, 6_000_000);
    c.pixels = vec![color; c.width * c.height];
    let ppm = create_ppm_body(&c.pixels, c.width);
    let row1 = String::from("255 204 153 255 204 153 255 204 153 255 204 153 255 204 153 255 204\n");
    let row2 = String::from("153 255 204 153 255 204 153 255 204 153 255 204 153\n");
    let row3 = String::from("255 204 153 255 204 153 255 204 153 255 204 153 255 204 153 255 204\n");
    let row4 = String::from("153 255 204 153 255 204 153 255 204 153 255 204 153\n");
    let exp = row1 + &row2 + &row3 + &row4;
    assert!(ppm == exp, "\nResult: PPM = \n{:?}\nExpected: PPM = \n{:?}", ppm, exp);
}

#[test]
fn header_of_larger_canvas() {
    assert_eq!(create_ppm_header(1920, 1080), "P3\n1920 1080\n255\n");
}
