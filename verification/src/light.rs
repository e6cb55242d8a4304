//! A point light, and the Phong lighting model that combines it with a
//! surface material to produce a color.

use vstd::prelude::*;
use crate::common::{fpow, iabs, lemma_fmul_bound, fp_pow, TraceError, SCALE};
use crate::material::{material_ok, Material};
use crate::tuple::{
    coords_le, lemma_dot_bound, spec_add, spec_dot, spec_hadamard, spec_mag, spec_neg, spec_norm,
    spec_reflect, spec_scale, spec_sub, Kind, Tuple, DOT_LIMIT,
};

verus! {

/// Coordinate and coefficient magnitude accepted by the lighting model
/// (a fixed-point range limit; the real 100).
pub const LIGHT_LIMIT: i64 = 1_000_000_000;

/// A point light: its color intensity and its position.
#[derive(Debug)]
pub struct Light {
    pub intensity: Tuple,
    pub position: Tuple,
}

/// The lighting inputs carry the kinds the model is defined on.
pub open spec fn lighting_kinds_ok(
    l: Light,
    m: Material,
    position: Tuple,
    eyev: Tuple,
    normalv: Tuple,
) -> bool {
    &&& m.color.kind == Kind::Color
    &&& l.intensity.kind == Kind::Color
    &&& l.position.kind == Kind::Point
    &&& position.kind == Kind::Point
    &&& eyev.kind == Kind::Vector
    &&& normalv.kind == Kind::Vector
}

/// The Phong model, mirrored operation for operation: ambient always
/// contributes; diffuse only when the light faces the surface; specular
/// only when the reflection also faces the eye, raised to the shininess
/// power (the specular base is capped at one before exponentiation).
pub open spec fn spec_lighting(
    l: Light,
    m: Material,
    position: Tuple,
    eyev: Tuple,
    normalv: Tuple,
) -> Tuple {
    let black = Tuple { x: 0, y: 0, z: 0, kind: Kind::Color };
    let eff = spec_hadamard(m.color, l.intensity);
    let lightv = spec_norm(spec_sub(l.position, position));
    let ambient = spec_scale(eff, m.ambient as int);
    let ldn = spec_dot(lightv, normalv);
    let diffuse = if ldn >= 0 {
        spec_scale(spec_scale(eff, m.diffuse as int), ldn)
    } else {
        black
    };
    let specular = if ldn >= 0 {
        let reflectv = spec_reflect(spec_neg(lightv), normalv);
        let rde = spec_dot(reflectv, eyev);
        if rde > 0 {
            let factor = fpow(
                if rde > SCALE as int {
                    SCALE as int
                } else {
                    rde
                },
                m.shininess as nat,
            );
            spec_scale(spec_scale(l.intensity, m.specular as int), factor)
        } else {
            black
        }
    } else {
        black
    };
    spec_add(spec_add(ambient, diffuse), specular)
}

impl Light {
    /// A new point light.
    pub fn new(intensity: Tuple, position: Tuple) -> (r: Light)
        ensures
            r.intensity == intensity,
            r.position == position,
    {
        Light { intensity, position }
    }

    /// The color of a surface point under this light. Inputs of the wrong
    /// kinds are a `KindMismatch`; a light placed exactly at the surface
    /// point (so the light direction cannot be normalized) is a
    /// `ZeroMagnitude`.
    ///
    /// The surface normal is expected normalized (coordinates within one),
    /// as the normal computation produces it.
    pub fn lighting(
        &self,
        material: &Material,
        position: Tuple,
        eyev: Tuple,
        normalv: Tuple,
    ) -> (r: Result<Tuple, TraceError>)
        requires
            material_ok(*material, LIGHT_LIMIT as int),
            coords_le(self.intensity, LIGHT_LIMIT as int),
            coords_le(self.position, LIGHT_LIMIT as int),
            coords_le(position, LIGHT_LIMIT as int),
            coords_le(eyev, LIGHT_LIMIT as int),
            coords_le(normalv, SCALE as int),
        ensures
            !lighting_kinds_ok(*self, *material, position, eyev, normalv) ==> r == Err::<
                Tuple,
                TraceError,
            >(TraceError::KindMismatch),
            lighting_kinds_ok(*self, *material, position, eyev, normalv) && spec_mag(
                spec_sub(self.position, position),
            ) == 0 ==> r == Err::<Tuple, TraceError>(TraceError::ZeroMagnitude),
            lighting_kinds_ok(*self, *material, position, eyev, normalv) && spec_mag(
                spec_sub(self.position, position),
            ) > 0 ==> r == Ok::<Tuple, TraceError>(
                spec_lighting(*self, *material, position, eyev, normalv),
            ),
    {
        let kinds_ok = match (
            self.intensity.kind,
            self.position.kind,
            position.kind,
            eyev.kind,
            normalv.kind,
            material.color.kind,
        ) {
            (Kind::Color, Kind::Point, Kind::Point, Kind::Vector, Kind::Vector, Kind::Color) => {
                true
            },
            _ => false,
        };
        if !kinds_ok {
            return Err(TraceError::KindMismatch);
        }
        let ghost lim = LIGHT_LIMIT as int;
        proof {
            lemma_hadamard_light(material.color, self.intensity);
        }
        let effective_color = match material.color.hadamard_product(self.intensity) {
            Ok(t) => t,
            Err(_) => {
                proof {
                    assert(false);
                }
                return Err(TraceError::KindMismatch);
            },
        };
        let lightv_raw = match self.position.sub(&position) {
            Ok(t) => t,
            Err(_) => {
                proof {
                    assert(false);
                }
                return Err(TraceError::KindMismatch);
            },
        };
        let lightv = match lightv_raw.norm() {
            Ok(t) => t,
            Err(e) => {
                return Err(e);
            },
        };
        proof {
            lemma_scale_bound(effective_color, material.ambient as int, 10_000_000_000_000, lim);
        }
        let ambient = effective_color.mul(material.ambient);
        let light_dot_normal = match lightv.dot(&normalv) {
            Ok(v) => v,
            Err(_) => {
                proof {
                    assert(false);
                }
                return Err(TraceError::KindMismatch);
            },
        };
        proof {
            crate::tuple::lemma_dot_unit_bound(lightv, normalv);
        }
        let mut diffuse = Tuple::color(0, 0, 0);
        let mut specular = Tuple::color(0, 0, 0);
        if light_dot_normal >= 0 {
            proof {
                lemma_scale_bound(effective_color, material.diffuse as int, 10_000_000_000_000, lim);
                lemma_scale_bound(
                    spec_scale(effective_color, material.diffuse as int),
                    light_dot_normal as int,
                    1_000_000_000_000_000,
                    30_000_000,
                );
            }
            diffuse = effective_color.mul(material.diffuse).mul(light_dot_normal);
            let reflectv = match lightv.neg().reflect(normalv) {
                Ok(t) => t,
                Err(_) => {
                    proof {
                        assert(false);
                    }
                    return Err(TraceError::KindMismatch);
                },
            };
            proof {
                lemma_reflect_output_bound(spec_neg(lightv), normalv);
                lemma_dot_bound(reflectv, eyev);
            }
            let reflect_dot_eye = match reflectv.dot(&eyev) {
                Ok(v) => v,
                Err(_) => {
                    proof {
                        assert(false);
                    }
                    return Err(TraceError::KindMismatch);
                },
            };
            if reflect_dot_eye > 0 {
                let base = if reflect_dot_eye > SCALE {
                    SCALE
                } else {
                    reflect_dot_eye
                };
                let factor = fp_pow(base, material.shininess);
                proof {
                    lemma_scale_bound(self.intensity, material.specular as int, lim, lim);
                    lemma_scale_bound(
                        spec_scale(self.intensity, material.specular as int),
                        factor as int,
                        100_000_000_000,
                        SCALE as int,
                    );
                }
                specular = self.intensity.mul(material.specular).mul(factor);
            }
        }
        let sum1 = match ambient.add(&diffuse) {
            Ok(t) => t,
            Err(_) => {
                proof {
                    assert(false);
                }
                return Err(TraceError::KindMismatch);
            },
        };
        let out = match sum1.add(&specular) {
            Ok(t) => t,
            Err(_) => {
                proof {
                    assert(false);
                }
                return Err(TraceError::KindMismatch);
            },
        };
        Ok(out)
    }
}

/// Bounds for the Hadamard product of light-range colors.
proof fn lemma_hadamard_light(a: Tuple, b: Tuple)
    requires
        coords_le(a, LIGHT_LIMIT as int),
        coords_le(b, LIGHT_LIMIT as int),
    ensures
        coords_le(a, DOT_LIMIT as int),
        coords_le(b, DOT_LIMIT as int),
        coords_le(spec_hadamard(a, b), 10_000_000_000_000),
{
    let l = LIGHT_LIMIT as int;
    lemma_fmul_bound(a.x as int, b.x as int, l, l);
    lemma_fmul_bound(a.y as int, b.y as int, l, l);
    lemma_fmul_bound(a.z as int, b.z as int, l, l);
}

/// A coordinate-bounded tuple scaled by a bounded factor stays bounded,
/// and the scaling fits the machine range.
proof fn lemma_scale_bound(t: Tuple, k: int, ct: int, ck: int)
    requires
        coords_le(t, ct),
        iabs(k) <= ck,
        0 <= ct,
        0 <= ck,
        ct * ck / (SCALE as int) <= 9_000_000_000_000_000_000,
    ensures
        crate::tuple::scale_fits(t, k),
        coords_le(spec_scale(t, k), ct * ck / (SCALE as int)),
{
    lemma_fmul_bound(t.x as int, k, ct, ck);
    lemma_fmul_bound(t.y as int, k, ct, ck);
    lemma_fmul_bound(t.z as int, k, ct, ck);
}

/// The reflection of unit-range vectors stays within the dot range.
proof fn lemma_reflect_output_bound(v: Tuple, n: Tuple)
    requires
        coords_le(v, SCALE as int),
        coords_le(n, SCALE as int),
    ensures
        coords_le(spec_reflect(v, n), DOT_LIMIT as int),
{
    let s = SCALE as int;
    lemma_dot_bound(v, n);
    let d = spec_dot(v, n);
    crate::common::lemma_tdiv_abs(v.x * n.x + v.y * n.y + v.z * n.z, s);
    assert(iabs(v.x * n.x) <= s * s && iabs(v.y * n.y) <= s * s && iabs(v.z * n.z) <= s * s)
        by (nonlinear_arith)
        requires
            iabs(v.x as int) <= s,
            iabs(v.y as int) <= s,
            iabs(v.z as int) <= s,
            iabs(n.x as int) <= s,
            iabs(n.y as int) <= s,
            iabs(n.z as int) <= s,
    ;
    vstd::arithmetic::div_mod::lemma_div_is_ordered(
        iabs(v.x * n.x + v.y * n.y + v.z * n.z),
        3 * s * s,
        s,
    );
    vstd::arithmetic::div_mod::lemma_div_by_multiple(3 * s, s);
    assert(iabs(d) <= 3 * s);
    lemma_fmul_bound(n.x as int, 2 * d, s, 6 * s);
    lemma_fmul_bound(n.y as int, 2 * d, s, 6 * s);
    lemma_fmul_bound(n.z as int, 2 * d, s, 6 * s);
}

} // verus!
