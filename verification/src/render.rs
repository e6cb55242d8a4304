//! A small rendering routine: one transformed sphere lit by a point light,
//! traced against a wall of pixels and serialized as PPM text.

use vstd::prelude::*;
use crate::canvas::{canvas_wf, ppm_header_chars, Canvas};
use crate::common::{iabs, lemma_fmul_bound, SCALE};
use crate::light::{Light, LIGHT_LIMIT};
use crate::material::{material_ok, Material};
use crate::matrix::{entries_within, Matrix, COORD_LIMIT, ENTRY_LIMIT};
use crate::ray::{hit_scan, Ray};
use crate::sphere::{coords_within, sphere_ok, Sphere};
use crate::tuple::{coords_le, Kind, Tuple};

verus! {

/// The Phong color of the nearest visible hit of the eye ray through
/// `(world_x, world_y)` on the wall, or nothing where the ray misses the
/// sphere or a value leaves the kernel's range.
fn shade_pixel(
    shape: &Sphere,
    light: &Light,
    ray_origin: Tuple,
    world_x: i64,
    world_y: i64,
    wall_z: i64,
) -> (r: Option<Tuple>)
    requires
        sphere_ok(*shape),
        material_ok(shape.material, LIGHT_LIMIT as int),
        coords_le(light.intensity, LIGHT_LIMIT as int),
        coords_le(light.position, LIGHT_LIMIT as int),
        ray_origin.kind == Kind::Point,
        coords_le(ray_origin, LIGHT_LIMIT as int),
        iabs(world_x as int) <= LIGHT_LIMIT as int,
        iabs(world_y as int) <= LIGHT_LIMIT as int,
        iabs(wall_z as int) <= LIGHT_LIMIT as int,
    ensures
        r is Some ==> r.unwrap().kind == Kind::Color,
{
    let position = Tuple::point(world_x, world_y, wall_z);
    let dir_raw = match position.sub(&ray_origin) {
        Ok(t) => t,
        Err(_) => {
            return None;
        },
    };
    let direction = match dir_raw.norm() {
        Ok(d) => d,
        Err(_) => {
            return None;
        },
    };
    let ray = match Ray::new(ray_origin, direction) {
        Ok(r) => r,
        Err(_) => {
            return None;
        },
    };
    let xs = match ray.intersect(shape) {
        Ok(Some(v)) => v,
        _ => {
            return None;
        },
    };
    let j = match Ray::hit(&xs) {
        Some(j) => j,
        None => {
            return None;
        },
    };
    let t = j.get_t();
    proof {
        let k = hit_scan(xs@, 1, 0);
        assert(k == 0 || k == 1);
        assert(iabs(t as int) <= COORD_LIMIT as int);
        lemma_fmul_bound(ray.direction.x as int, t as int, SCALE as int, COORD_LIMIT as int);
        lemma_fmul_bound(ray.direction.y as int, t as int, SCALE as int, COORD_LIMIT as int);
        lemma_fmul_bound(ray.direction.z as int, t as int, SCALE as int, COORD_LIMIT as int);
    }
    let point = ray.position(t);
    if !coords_within(&point, LIGHT_LIMIT) {
        return None;
    }
    let normal = match shape.normal_at(point) {
        Ok(n) => n,
        Err(_) => {
            return None;
        },
    };
    let eye = ray.direction.neg();
    match light.lighting(&shape.material, point, eye, normal) {
        Ok(c) => Some(c),
        Err(_) => None,
    }
}

/// Renders the shadowed-sphere scene: a unit sphere sheared and scaled,
/// lit from above and to the right, traced through a 100 by 100 canvas
/// toward a wall behind it. Returns the canvas's PPM text, which consists
/// of the header (as `canvas_to_ppm` emits).
pub fn sphere_shadow_test() -> (r: String)
    ensures
        r@ == ppm_header_chars(100, 100),
{
    let ray_origin = Tuple::point(0, 0, -50_000_000);
    let wall_z: i64 = 100_000_000;
    let mut canvas = Canvas::new(100, 100);
    let mut shape = Sphere::new();
    let sheared = Matrix::shearing(2_500_000, 0, 0, 0, 0, 0);
    let scaled = Matrix::scaling(5_000_000, SCALE, SCALE);
    match sheared.mul(&scaled) {
        Ok(m) => {
            if entries_within(&m, ENTRY_LIMIT) {
                shape.transform = m;
            }
        },
        Err(_) => {},
    }
    shape.material = Material::new();
    shape.material.color = Tuple::color(10_000_000, 5_000_000, 7_500_000);
    let light_position = Tuple::point(100_000_000, 100_000_000, -100_000_000);
    let light_color = Tuple::color(10_000_000, 10_000_000, 10_000_000);
    let light = Light::new(light_color, light_position);
    let mut y: usize = 0;
    while y < 99
        invariant
            canvas.width == 100,
            canvas.height == 100,
            canvas_wf(canvas),
            sphere_ok(shape),
            material_ok(shape.material, LIGHT_LIMIT as int),
            coords_le(light.intensity, LIGHT_LIMIT as int),
            coords_le(light.position, LIGHT_LIMIT as int),
            ray_origin.kind == Kind::Point,
            coords_le(ray_origin, LIGHT_LIMIT as int),
            iabs(wall_z as int) <= LIGHT_LIMIT as int,
            y <= 99,
        decreases 99 - y,
    {
        let world_y: i64 = 35_000_000 - 700_000 * (y as i64);
        let mut x: usize = 0;
        while x < 99
            invariant
                canvas.width == 100,
                canvas.height == 100,
                canvas_wf(canvas),
                sphere_ok(shape),
                material_ok(shape.material, LIGHT_LIMIT as int),
                coords_le(light.intensity, LIGHT_LIMIT as int),
                coords_le(light.position, LIGHT_LIMIT as int),
                ray_origin.kind == Kind::Point,
                coords_le(ray_origin, LIGHT_LIMIT as int),
                iabs(wall_z as int) <= LIGHT_LIMIT as int,
                y < 99,
                x <= 99,
                iabs(world_y as int) <= 105_000_000,
            decreases 99 - x,
        {
            let world_x: i64 = -35_000_000 + 700_000 * (x as i64);
            match shade_pixel(&shape, &light, ray_origin, world_x, world_y, wall_z) {
                Some(color) => {
                    canvas.write_pixel(x, y, color);
                },
                None => {},
            }
            x = x + 1;
        }
        y = y + 1;
    }
    canvas.canvas_to_ppm()
}

} // verus!
