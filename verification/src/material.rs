//! Surface reflectance parameters for the Phong lighting model.

use vstd::prelude::*;
use crate::common::{approx, iabs, f_equal, SCALE};
use crate::tuple::{approx_tuple, coords_le, Kind, Tuple};

verus! {

/// A surface material: its color and the Phong coefficients. The shininess
/// exponent is a natural number (the power the specular factor is raised
/// to), not a fixed-point scalar.
#[derive(Clone, Copy, Debug)]
pub struct Material {
    pub color: Tuple,
    pub ambient: i64,
    pub diffuse: i64,
    pub specular: i64,
    pub shininess: u32,
}

/// The default material: white, ambient 0.1, diffuse 0.9, specular 0.9,
/// shininess 200.
pub open spec fn default_material() -> Material {
    Material {
        color: Tuple { x: SCALE as i64, y: SCALE as i64, z: SCALE as i64, kind: Kind::Color },
        ambient: 1_000_000,
        diffuse: 9_000_000,
        specular: 9_000_000,
        shininess: 200,
    }
}

/// The material's color is a color and its coefficients fit within the
/// given magnitude.
pub open spec fn material_ok(m: Material, limit: int) -> bool {
    &&& m.color.kind == Kind::Color
    &&& coords_le(m.color, limit)
    &&& iabs(m.ambient as int) <= limit
    &&& iabs(m.diffuse as int) <= limit
    &&& iabs(m.specular as int) <= limit
}

/// Tolerance-based material equality; the shininess exponent, being a
/// count and not a scalar, must match exactly.
pub open spec fn approx_material(a: Material, b: Material) -> bool {
    &&& approx_tuple(a.color, b.color)
    &&& approx(a.ambient as int, b.ambient as int)
    &&& approx(a.diffuse as int, b.diffuse as int)
    &&& approx(a.specular as int, b.specular as int)
    &&& a.shininess == b.shininess
}

impl Material {
    /// A new material with the default parameters.
    pub fn new() -> (r: Material)
        ensures
            r == default_material(),
    {
        Material {
            color: Tuple::color(SCALE, SCALE, SCALE),
            ambient: 1_000_000,
            diffuse: 9_000_000,
            specular: 9_000_000,
            shininess: 200,
        }
    }
}

impl Default for Material {
    /// The default material.
    fn default() -> (r: Material)
        ensures
            r == default_material(),
    {
        Material::new()
    }
}

impl PartialEq for Material {
    /// Tolerance-based equality of materials.
    fn eq(&self, other: &Material) -> (r: bool) {
        self.color == other.color && f_equal(self.ambient, other.ambient) && f_equal(
            self.diffuse,
            other.diffuse,
        ) && f_equal(self.specular, other.specular) && self.shininess == other.shininess
    }
}

impl vstd::std_specs::cmp::PartialEqSpecImpl for Material {
    open spec fn obeys_eq_spec() -> bool {
        true
    }

    open spec fn eq_spec(&self, other: &Material) -> bool {
        approx_material(*self, *other)
    }
}

} // verus!
