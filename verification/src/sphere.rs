//! The unit sphere, placed and shaped by its instance transform, and its
//! surface normal under that transform.

use vstd::prelude::*;
use crate::common::{approx, iabs, TraceError, SCALE};
use crate::material::{approx_material, default_material, Material};
use crate::matrix::{
    bounded_grid, grid_approx, id_grid, inv_grid, inv_in_range, spec_det, spec_mat_tup,
    transpose_grid, wf_grid, Matrix, COORD_LIMIT, ENTRY_LIMIT,
};
use crate::tuple::{approx_tuple, coords_le, spec_mag, spec_norm, spec_sub, Kind, Tuple};

verus! {

/// The kinds of primitive a scene can hold; the sphere is the only one
/// implemented.
#[derive(Clone, Copy, Debug, PartialEq, Eq, Structural)]
pub enum ObjectTypes {
    Sphere,
}

/// A sphere: the unit sphere at the local origin, carried into the world
/// by its transform, with its surface material.
#[derive(Debug)]
pub struct Sphere {
    pub origin: Tuple,
    pub transform: Matrix,
    pub material: Material,
}

/// The two spheres hold the same origin, transform entries and material.
pub open spec fn sphere_like(a: Sphere, b: Sphere) -> bool {
    &&& a.origin == b.origin
    &&& a.transform@ == b.transform@
    &&& a.material == b.material
}

/// The local origin the sphere's normals are measured from.
pub open spec fn local_origin() -> Tuple {
    Tuple { x: 0, y: 0, z: 0, kind: Kind::Point }
}

/// The default sphere: at the origin, untransformed, default material.
pub open spec fn default_sphere(s: Sphere) -> bool {
    &&& s.origin == local_origin()
    &&& s.transform@ == id_grid(4)
    &&& s.material == default_material()
}

/// A sphere whose transform is a well-formed, bounded 4x4 matrix and whose
/// origin is an in-range point.
pub open spec fn sphere_ok(s: Sphere) -> bool {
    &&& wf_grid(s.transform@)
    &&& s.transform@.len() == 4
    &&& bounded_grid(s.transform@, ENTRY_LIMIT as int)
    &&& s.origin.kind == Kind::Point
    &&& coords_le(s.origin, COORD_LIMIT as int)
}

/// Tolerance-based sphere equality: all three parts within tolerance.
pub open spec fn approx_sphere(a: Sphere, b: Sphere) -> bool {
    &&& approx_tuple(a.origin, b.origin)
    &&& grid_approx(a.transform@, b.transform@)
    &&& approx_material(a.material, b.material)
}

/// The point of the sphere's local space a world point maps back to.
pub open spec fn object_point_of(g: Seq<Seq<int>>, world_point: Tuple) -> Tuple {
    spec_mat_tup(inv_grid(g), world_point)
}

/// The world-space surface normal before normalization: the local normal
/// carried out by the inverse-transpose, tagged as a vector.
pub open spec fn world_normal_of(g: Seq<Seq<int>>, world_point: Tuple) -> Tuple {
    spec_mat_tup(
        transpose_grid(inv_grid(g)),
        spec_sub(object_point_of(g, world_point), local_origin()),
    )
}

impl Sphere {
    /// A new default sphere.
    pub fn new() -> (r: Sphere)
        ensures
            default_sphere(r),
            sphere_ok(r),
    {
        Sphere {
            origin: Tuple::point(0, 0, 0),
            transform: Matrix::identity(),
            material: Material::new(),
        }
    }

    pub fn get_origin(&self) -> (r: &Tuple)
        ensures
            *r == self.origin,
    {
        &self.origin
    }

    pub fn get_transform(&self) -> (r: &Matrix)
        ensures
            *r == self.transform,
    {
        &self.transform
    }

    pub fn get_material(&self) -> (r: &Material)
        ensures
            *r == self.material,
    {
        &self.material
    }

    pub fn get_object_type(&self) -> (r: ObjectTypes)
        ensures
            r == ObjectTypes::Sphere,
    {
        ObjectTypes::Sphere
    }

    /// The unit surface normal at a world point: the point is carried into
    /// the sphere's local space, the local normal is the offset from the
    /// local origin, and the inverse-transpose carries it back out (tagged
    /// as a vector) before normalization.
    ///
    /// A singular transform is a `SingularMatrix`; an inverse or an
    /// intermediate coordinate beyond the kernel's range an `OutOfRange`;
    /// a point that maps to the local origin a `ZeroMagnitude`.
    pub fn normal_at(&self, world_point: Tuple) -> (r: Result<Tuple, TraceError>)
        requires
            sphere_ok(*self),
            world_point.kind == Kind::Point,
            coords_le(world_point, COORD_LIMIT as int),
        ensures
            ({
                let g = self.transform@;
                let op = object_point_of(g, world_point);
                let wn = world_normal_of(g, world_point);
                &&& approx(spec_det(g), 0) ==> r == Err::<Tuple, TraceError>(
                    TraceError::SingularMatrix,
                )
                &&& !approx(spec_det(g), 0) && !inv_in_range(g) ==> r == Err::<Tuple, TraceError>(
                    TraceError::OutOfRange,
                )
                &&& !approx(spec_det(g), 0) && inv_in_range(g) && !coords_le(
                    op,
                    COORD_LIMIT as int,
                ) ==> r == Err::<Tuple, TraceError>(TraceError::OutOfRange)
                &&& !approx(spec_det(g), 0) && inv_in_range(g) && coords_le(op, COORD_LIMIT as int)
                    && !coords_le(wn, COORD_LIMIT as int) ==> r == Err::<Tuple, TraceError>(
                    TraceError::OutOfRange,
                )
                &&& !approx(spec_det(g), 0) && inv_in_range(g) && coords_le(op, COORD_LIMIT as int)
                    && coords_le(wn, COORD_LIMIT as int) && spec_mag(wn) == 0 ==> r == Err::<
                    Tuple,
                    TraceError,
                >(TraceError::ZeroMagnitude)
                &&& !approx(spec_det(g), 0) && inv_in_range(g) && coords_le(op, COORD_LIMIT as int)
                    && coords_le(wn, COORD_LIMIT as int) && spec_mag(wn) > 0 ==> r == Ok::<
                    Tuple,
                    TraceError,
                >(spec_norm(wn)) && coords_le(spec_norm(wn), SCALE as int)
            }),
    {
        let ghost g = self.transform@;
        let transform_inverse = match self.transform.inverse() {
            Ok(m) => m,
            Err(e) => {
                return Err(e);
            },
        };
        let object_point = match transform_inverse.mul_tuple(&world_point) {
            Ok(t) => t,
            Err(_) => {
                proof {
                    assert(false);
                }
                return Err(TraceError::KindMismatch);
            },
        };
        if !coords_within(&object_point, COORD_LIMIT) {
            return Err(TraceError::OutOfRange);
        }
        let object_normal = match object_point.sub(&Tuple::point(0, 0, 0)) {
            Ok(t) => t,
            Err(_) => {
                proof {
                    assert(false);
                }
                return Err(TraceError::KindMismatch);
            },
        };
        let transposed = transform_inverse.transpose();
        proof {
            assert forall|i: int, j: int|
                0 <= i < transposed@.len() && 0 <= j < transposed@[i].len() implies iabs(
                #[trigger] transposed@[i][j],
            ) <= COORD_LIMIT as int by {
                assert(transposed@[i][j] == inv_grid(g)[j][i]);
            }
        }
        let world_normal = match transposed.mul_tuple(&object_normal) {
            Ok(t) => t,
            Err(_) => {
                proof {
                    assert(false);
                }
                return Err(TraceError::KindMismatch);
            },
        };
        if !coords_within(&world_normal, COORD_LIMIT) {
            return Err(TraceError::OutOfRange);
        }
        world_normal.norm()
    }
}

/// Checks that every coordinate fits within the given magnitude.
pub fn coords_within(t: &Tuple, limit: i64) -> (r: bool)
    requires
        limit >= 0,
    ensures
        r == coords_le(*t, limit as int),
{
    -limit <= t.x && t.x <= limit && -limit <= t.y && t.y <= limit && -limit <= t.z && t.z <= limit
}

impl Clone for Sphere {
    /// A copy holding the same origin, transform entries and material.
    fn clone(&self) -> (r: Self)
        ensures
            sphere_like(r, *self),
            r.origin == self.origin,
            r.material == self.material,
            r.transform@ == self.transform@,
    {
        Sphere {
            origin: self.origin,
            transform: self.transform.clone(),
            material: self.material,
        }
    }
}

impl Default for Sphere {
    /// The default sphere.
    fn default() -> (r: Sphere)
        ensures
            default_sphere(r),
            sphere_ok(r),
    {
        Sphere::new()
    }
}

impl PartialEq for Sphere {
    /// Tolerance-based equality of spheres.
    fn eq(&self, other: &Sphere) -> (r: bool) {
        self.origin == other.origin && self.transform == other.transform && self.material
            == other.material
    }
}

impl vstd::std_specs::cmp::PartialEqSpecImpl for Sphere {
    open spec fn obeys_eq_spec() -> bool {
        true
    }

    open spec fn eq_spec(&self, other: &Sphere) -> bool {
        approx_sphere(*self, *other)
    }
}

} // verus!
