// Point lights and the Phong lighting model.

use rust_tracer::common::TraceError;
use rust_tracer::light::Light;
use rust_tracer::material::Material;
use rust_tracer::tuple::Tuple;

const U: i64 = 10_000_000;

#[test]
fn create_light() {
    let l = Light::new(Tuple::color(U, U, U), Tuple::point(0, 0, 0));
    assert!(
        l.intensity == Tuple::color(U, U, U) && l.position == Tuple::point(0, 0, 0),
        "The creation of the light struct did not happen correctly."
    );
}

#[test]
fn lighting_with_eye_between_light_and_surface() {
    let m = Material::new();
    let position = Tuple::point(0, 0, 0);
    let eyev = Tuple::vector(0, 0, -U);
    let normalv = Tuple::vector(0, 0, -U);
    let light = Light::new(Tuple::color(U, U, U), Tuple::point(0, 0, -10 * U));
    let result = light.lighting(&m, position, eyev, normalv).unwrap();
    let expected = Tuple::color(19_000_000, 19_000_000, 19_000_000);
    assert!(result == expected, "The resultant lighting was not calculated correctly.");
}

#[test]
fn lighting_with_eye_between_light_and_surface_eye_offset_45() {
    // sqrt(2) / 2
    let h: i64 = 7_071_068;
    let m = Material::new();
    let position = Tuple::point(0, 0, 0);
    let eyev = Tuple::vector(0, h, -h);
    let normalv = Tuple::vector(0, 0, -U);
    let light = Light::new(Tuple::color(U, U, U), Tuple::point(0, 0, -10 * U));
    let result = light.lighting(&m, position, eyev, normalv).unwrap();
    let expected = Tuple::color(U, U, U);
    assert!(result == expected, "The resultant lighting was not calculated correctly.");
}

#[test]
fn lighting_with_eye_opposite_surface_light_offset_45() {
    let m = Material::new();
    let position = Tuple::point(0, 0, 0);
    let eyev = Tuple::vector(0, 0, -U);
    let normalv = Tuple::vector(0, 0, -U);
    let light = Light::new(Tuple::color(U, U, U), Tuple::point(0, 10 * U, -10 * U));
    let result = light.lighting(&m, position, eyev, normalv).unwrap();
    let expected = Tuple::color(7_364_000, 7_364_000, 7_364_000);
    assert!(result == expected, "The resultant lighting was not calculated correctly.");
}

#[test]
fn lighting_with_light_behind_surface() {
    let m = Material::new();
    let position = Tuple::point(0, 0, 0);
    let eyev = Tuple::vector(0, 0, -U);
    let normalv = Tuple::vector(0, 0, -U);
    let light = Light::new(Tuple::color(U, U, U), Tuple::point(0, 0, 10 * U));
    let result = light.lighting(&m, position, eyev, normalv).unwrap();
    let expected = Tuple::color(1_000_000, 1_000_000, 1_000_000);
    assert!(result == expected, "The resultant lighting was not calculated correctly.");
}

#[test]
fn lighting_at_the_light_is_an_error() {
    let m = Material::new();
    let position = Tuple::point(U, 2 * U, 3 * U);
    let eyev = Tuple::vector(0, 0, -U);
    let normalv = Tuple::vector(0, 0, -U);
    let light = Light::new(Tuple::color(U, U, U), Tuple::point(U, 2 * U, 3 * U));
    assert_eq!(
        light.lighting(&m, position, eyev, normalv).unwrap_err(),
        TraceError::ZeroMagnitude
    );
}

#[test]
fn lighting_rejects_mismatched_kinds() {
    let m = Material::new();
    let position = Tuple::point(0, 0, 0);
    let eyev = Tuple::vector(0, 0, -U);
    let normalv = Tuple::point(0, 0, -U);
    let light = Light::new(Tuple::color(U, U, U), Tuple::point(0, 0, -10 * U));
    assert_eq!(
        light.lighting(&m, position, eyev, normalv).unwrap_err(),
        TraceError::KindMismatch
    );
}
