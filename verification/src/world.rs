//! The scene: a flat list of objects and a single light.

use vstd::prelude::*;
use crate::light::Light;
use crate::material::{default_material, Material};
use crate::matrix::{id_grid, scaling_grid, Matrix};
use crate::sphere::{local_origin, sphere_ok, Sphere};
use crate::tuple::{Kind, Tuple};

verus! {

/// A world: its objects and its one light.
#[derive(Debug)]
pub struct World {
    pub light: Light,
    pub objects: Vec<Sphere>,
}

/// The default world's light: white, at `(-10, 10, -10)`.
pub open spec fn default_light(l: Light) -> bool {
    &&& l.intensity == (Tuple {
        x: 10_000_000,
        y: 10_000_000,
        z: 10_000_000,
        kind: Kind::Color,
    })
    &&& l.position == (Tuple {
        x: -100_000_000i64,
        y: 100_000_000,
        z: -100_000_000i64,
        kind: Kind::Point,
    })
}

/// The default world's first sphere: untransformed, with a green-tinted
/// material of diffuse 0.7 and specular 0.2.
pub open spec fn default_first_sphere(s: Sphere) -> bool {
    &&& s.origin == local_origin()
    &&& s.transform@ == id_grid(4)
    &&& s.material == (Material {
        color: Tuple { x: 8_000_000, y: 10_000_000, z: 6_000_000, kind: Kind::Color },
        ambient: 1_000_000,
        diffuse: 7_000_000,
        specular: 2_000_000,
        shininess: 200,
    })
}

/// The default world's second sphere: half-scale, default material.
pub open spec fn default_second_sphere(s: Sphere) -> bool {
    &&& s.origin == local_origin()
    &&& s.transform@ == scaling_grid(5_000_000, 5_000_000, 5_000_000)
    &&& s.material == default_material()
}

impl World {
    /// A new default world.
    pub fn new() -> (r: World)
        ensures
            default_light(r.light),
            r.objects@.len() == 2,
            default_first_sphere(r.objects@[0]),
            default_second_sphere(r.objects@[1]),
            sphere_ok(r.objects@[0]),
            sphere_ok(r.objects@[1]),
    {
        World::default()
    }
}

impl Default for World {
    /// The default world: two concentric spheres under one white light.
    fn default() -> (r: World)
        ensures
            default_light(r.light),
            r.objects@.len() == 2,
            default_first_sphere(r.objects@[0]),
            default_second_sphere(r.objects@[1]),
            sphere_ok(r.objects@[0]),
            sphere_ok(r.objects@[1]),
    {
        let mut m1 = Material::new();
        m1.color = Tuple::color(8_000_000, 10_000_000, 6_000_000);
        m1.diffuse = 7_000_000;
        m1.specular = 2_000_000;
        let mut s1 = Sphere::new();
        s1.material = m1;
        let mut s2 = Sphere::new();
        s2.transform = Matrix::scaling(5_000_000, 5_000_000, 5_000_000);
        let light = Light::new(
            Tuple::color(10_000_000, 10_000_000, 10_000_000),
            Tuple::point(-100_000_000, 100_000_000, -100_000_000),
        );
        let mut objects: Vec<Sphere> = Vec::new();
        objects.push(s1);
        objects.push(s2);
        World { light, objects }
    }
}

} // verus!
