//! Rays: position along a ray, transform by a matrix, the ray-sphere
//! intersection, and selection of the visible hit.

use vstd::prelude::*;
use crate::common::{
    approx, iabs, isqrt, lemma_isqrt, lemma_isqrt_le, lemma_tdiv_abs, lemma_tdiv_monotone,
    isqrt_u128, tdiv, tdiv_i128, TraceError, SCALE,
};
use crate::intersection::Intersection;
use crate::matrix::{
    bounded_grid, inv_grid, inv_in_range, spec_det, spec_mat_tup, wf_grid, Matrix, COORD_LIMIT,
};
use crate::sphere::{coords_within, sphere_like, sphere_ok, Sphere};
use crate::tuple::{
    add_fits, coords_le, lemma_dot_bound, lemma_dot_self_nonneg, scale_fits, spec_add, spec_dot,
    spec_scale, spec_sub, Kind, Tuple,
};

verus! {

/// A ray: a point of origin and a direction vector.
#[derive(Debug)]
pub struct Ray {
    pub origin: Tuple,
    pub direction: Tuple,
}

/// The origin is a point, the direction a vector, both within the kernel's
/// coordinate range.
pub open spec fn ray_ok(r: Ray) -> bool {
    &&& r.origin.kind == Kind::Point
    &&& r.direction.kind == Kind::Vector
    &&& coords_le(r.origin, COORD_LIMIT as int)
    &&& coords_le(r.direction, COORD_LIMIT as int)
}

/// The position along the ray at parameter `t`.
pub open spec fn spec_position(r: Ray, t: int) -> Tuple {
    spec_add(r.origin, spec_scale(r.direction, t))
}

/// The quadratic coefficients of the local-space ray against the unit
/// sphere: `a`, `b` and `c` of `a t^2 + b t + c = 0`.
pub open spec fn isect_a(rd: Tuple) -> int {
    spec_dot(rd, rd)
}

pub open spec fn isect_b(rd: Tuple, oc: Tuple) -> int {
    2 * spec_dot(rd, oc)
}

pub open spec fn isect_c(oc: Tuple) -> int {
    spec_dot(oc, oc) - SCALE as int
}

/// The discriminant `b^2 - 4ac`, in units (one rounding).
pub open spec fn isect_disc(a: int, b: int, c: int) -> int {
    tdiv(b * b - 4 * a * c, SCALE as int)
}

/// A root of the quadratic: `(-b +/- sqrt(disc)) / (2a)`, in units.
pub open spec fn isect_root(b: int, sq: int, a: int, plus: bool) -> int {
    if plus {
        tdiv((-b + sq) * (SCALE as int), 2 * a)
    } else {
        tdiv((-b - sq) * (SCALE as int), 2 * a)
    }
}

impl Ray {
    /// A new ray. The origin must be a point and the direction a vector;
    /// anything else is a `KindMismatch`.
    pub fn new(origin: Tuple, direction: Tuple) -> (r: Result<Ray, TraceError>)
        ensures
            origin.kind == Kind::Point && direction.kind == Kind::Vector ==> r == Ok::<
                Ray,
                TraceError,
            >(Ray { origin, direction }),
            !(origin.kind == Kind::Point && direction.kind == Kind::Vector) ==> r == Err::<
                Ray,
                TraceError,
            >(TraceError::KindMismatch),
    {
        match (origin.kind, direction.kind) {
            (Kind::Point, Kind::Vector) => Ok(Ray { origin, direction }),
            _ => Err(TraceError::KindMismatch),
        }
    }

    /// The position along the ray at parameter `t`:
    /// `origin + direction * t`.
    pub fn position(&self, t: i64) -> (r: Tuple)
        requires
            self.origin.kind == Kind::Point,
            self.direction.kind == Kind::Vector,
            scale_fits(self.direction, t as int),
            add_fits(self.origin, spec_scale(self.direction, t as int)),
        ensures
            r == spec_position(*self, t as int),
    {
        let scaled = self.direction.mul(t);
        match self.origin.add(&scaled) {
            Ok(p) => p,
            Err(_) => {
                proof {
                    assert(false);
                }
                self.origin
            },
        }
    }

    /// The ray carried by a transform: both the origin and the direction
    /// are multiplied by the matrix. A non-4x4 matrix is a
    /// `DimensionMismatch`.
    pub fn transform(&self, m: Matrix) -> (r: Result<Ray, TraceError>)
        requires
            ray_ok(*self),
            bounded_grid(m@, COORD_LIMIT as int),
        ensures
            wf_grid(m@) && m@.len() == 4 ==> r == Ok::<Ray, TraceError>(
                Ray {
                    origin: spec_mat_tup(m@, self.origin),
                    direction: spec_mat_tup(m@, self.direction),
                },
            ),
            !(wf_grid(m@) && m@.len() == 4) ==> r == Err::<Ray, TraceError>(
                TraceError::DimensionMismatch,
            ),
    {
        let origin = match m.mul_tuple(&self.origin) {
            Ok(t) => t,
            Err(e) => {
                return Err(e);
            },
        };
        let direction = match m.mul_tuple(&self.direction) {
            Ok(t) => t,
            Err(_) => {
                proof {
                    assert(false);
                }
                return Err(TraceError::DimensionMismatch);
            },
        };
        Ok(Ray { origin, direction })
    }

    /// Where the ray meets a sphere. The ray is carried into the sphere's
    /// local space by the inverse transform; the quadratic of the unit
    /// sphere is solved there. A negative discriminant, or a direction
    /// whose self-product rounds to zero, meets nothing (`None`); otherwise
    /// the two roots come back in ascending order, each record holding a
    /// copy of the sphere.
    ///
    /// A singular transform is a `SingularMatrix`; an inverse entry, a
    /// local-space coordinate or a root beyond the kernel's range is an
    /// `OutOfRange`.
    pub fn intersect(&self, s: &Sphere) -> (r: Result<Option<Vec<Intersection>>, TraceError>)
        requires
            ray_ok(*self),
            sphere_ok(*s),
        ensures
            ({
                let g = s.transform@;
                let ro = spec_mat_tup(inv_grid(g), self.origin);
                let rd = spec_mat_tup(inv_grid(g), self.direction);
                let oc = spec_sub(ro, s.origin);
                let a = isect_a(rd);
                let b = isect_b(rd, oc);
                let c = isect_c(oc);
                let disc = isect_disc(a, b, c);
                let sq = isqrt(disc * (SCALE as int));
                let t1 = isect_root(b, sq, a, false);
                let t2 = isect_root(b, sq, a, true);
                &&& approx(spec_det(g), 0) ==> r == Err::<Option<Vec<Intersection>>, TraceError>(
                    TraceError::SingularMatrix,
                )
                &&& !approx(spec_det(g), 0) && !inv_in_range(g) ==> r == Err::<
                    Option<Vec<Intersection>>,
                    TraceError,
                >(TraceError::OutOfRange)
                &&& !approx(spec_det(g), 0) && inv_in_range(g) && !(coords_le(
                    ro,
                    COORD_LIMIT as int,
                ) && coords_le(rd, COORD_LIMIT as int)) ==> r == Err::<
                    Option<Vec<Intersection>>,
                    TraceError,
                >(TraceError::OutOfRange)
                &&& !approx(spec_det(g), 0) && inv_in_range(g) && coords_le(ro, COORD_LIMIT as int)
                    && coords_le(rd, COORD_LIMIT as int) && (a == 0 || disc < 0) ==> r == Ok::<
                    Option<Vec<Intersection>>,
                    TraceError,
                >(None)
                &&& !approx(spec_det(g), 0) && inv_in_range(g) && coords_le(ro, COORD_LIMIT as int)
                    && coords_le(rd, COORD_LIMIT as int) && a != 0 && disc >= 0 && !(iabs(t1)
                    <= COORD_LIMIT as int && iabs(t2) <= COORD_LIMIT as int) ==> r == Err::<
                    Option<Vec<Intersection>>,
                    TraceError,
                >(TraceError::OutOfRange)
                &&& !approx(spec_det(g), 0) && inv_in_range(g) && coords_le(ro, COORD_LIMIT as int)
                    && coords_le(rd, COORD_LIMIT as int) && a != 0 && disc >= 0 && iabs(t1)
                    <= COORD_LIMIT as int && iabs(t2) <= COORD_LIMIT as int ==> r is Ok && {
                    let v = r.unwrap().unwrap();
                    &&& r.unwrap() is Some
                    &&& v@.len() == 2
                    &&& v@[0].t as int == t1
                    &&& v@[1].t as int == t2
                    &&& t1 <= t2
                    &&& sphere_like(v@[0].object, *s)
                    &&& sphere_like(v@[1].object, *s)
                }
            }),
    {
        let ghost g = s.transform@;
        let transform_inverse = match s.transform.inverse() {
            Ok(m) => m,
            Err(e) => {
                return Err(e);
            },
        };
        let transformed_ray = match self.transform(transform_inverse) {
            Ok(t) => t,
            Err(_) => {
                proof {
                    assert(false);
                }
                return Err(TraceError::DimensionMismatch);
            },
        };
        if !(coords_within(&transformed_ray.origin, COORD_LIMIT) && coords_within(
            &transformed_ray.direction,
            COORD_LIMIT,
        )) {
            return Err(TraceError::OutOfRange);
        }
        let sphere_to_ray = match transformed_ray.origin.sub(&s.origin) {
            Ok(t) => t,
            Err(_) => {
                proof {
                    assert(false);
                }
                return Err(TraceError::KindMismatch);
            },
        };
        proof {
            lemma_dot_bound(transformed_ray.direction, transformed_ray.direction);
            lemma_dot_bound(transformed_ray.direction, sphere_to_ray);
            lemma_dot_bound(sphere_to_ray, sphere_to_ray);
            lemma_dot_self_nonneg(transformed_ray.direction);
        }
        let a = match transformed_ray.direction.dot(&transformed_ray.direction) {
            Ok(v) => v,
            Err(_) => {
                proof {
                    assert(false);
                }
                return Err(TraceError::KindMismatch);
            },
        };
        let b = match transformed_ray.direction.dot(&sphere_to_ray) {
            Ok(v) => 2 * v,
            Err(_) => {
                proof {
                    assert(false);
                }
                return Err(TraceError::KindMismatch);
            },
        };
        let c = match sphere_to_ray.dot(&sphere_to_ray) {
            Ok(v) => v - SCALE,
            Err(_) => {
                proof {
                    assert(false);
                }
                return Err(TraceError::KindMismatch);
            },
        };
        proof {
            lemma_isect_products_fit(a as int, b as int, c as int);
        }
        let disc_num: i128 = (b as i128) * (b as i128) - 4 * (a as i128) * (c as i128);
        let disc: i128 = tdiv_i128(disc_num, SCALE as i128);
        if a == 0 || disc < 0 {
            return Ok(None);
        }
        proof {
            lemma_tdiv_abs(disc_num as int, SCALE as int);
            vstd::arithmetic::div_mod::lemma_div_is_ordered(
                iabs(disc_num as int),
                11_520_004_800_000_000_000_000_000_000_000_000_000,
                SCALE as int,
            );
            assert((disc as int) * (SCALE as int) < 0x4000000000000000 * 0x4000000000000000);
        }
        let sq_u: u64 = isqrt_u128((disc as u128) * (SCALE as u128));
        proof {
            lemma_isqrt_le((disc as int) * (SCALE as int), 0x3FFFFFFFFFFFFFFF);
        }
        let sq: i64 = sq_u as i64;
        proof {
            lemma_isqrt((disc as int) * (SCALE as int));
            lemma_isect_root_bounds(a as int, b as int, sq as int);
        }
        let n1: i128 = -(b as i128) - (sq as i128);
        let n2: i128 = -(b as i128) + (sq as i128);
        let t1: i128 = tdiv_i128(n1 * (SCALE as i128), 2 * (a as i128));
        let t2: i128 = tdiv_i128(n2 * (SCALE as i128), 2 * (a as i128));
        if t1 > COORD_LIMIT as i128 || t1 < -(COORD_LIMIT as i128) || t2 > COORD_LIMIT as i128
            || t2 < -(COORD_LIMIT as i128) {
            return Err(TraceError::OutOfRange);
        }
        proof {
            lemma_tdiv_monotone(
                (n1 as int) * (SCALE as int),
                (n2 as int) * (SCALE as int),
                2 * (a as int),
            );
            assert((n1 as int) * (SCALE as int) <= (n2 as int) * (SCALE as int))
                by (nonlinear_arith)
                requires
                    n1 <= n2,
                    SCALE > 0,
            ;
        }
        let mut v: Vec<Intersection> = Vec::new();
        v.push(Intersection::new(t1 as i64, s.clone()));
        v.push(Intersection::new(t2 as i64, s.clone()));
        Ok(Some(v))
    }

    /// The visible hit among a set of intersections: the record at index
    /// `hit_scan(is, 1, 0)`, which is the first record carrying the
    /// smallest nonnegative `t`. If every `t` is negative, or the set is
    /// empty, there is none.
    pub fn hit(is: &Vec<Intersection>) -> (r: Option<&Intersection>)
        ensures
            is@.len() == 0 ==> r is None,
            is@.len() > 0 ==> 0 <= hit_scan(is@, 1, 0) < is@.len(),
            is@.len() > 0 && is@[hit_scan(is@, 1, 0)].t < 0 ==> r is None,
            is@.len() > 0 && is@[hit_scan(is@, 1, 0)].t >= 0 ==> r is Some && *r.unwrap()
                == is@.index(hit_scan(is@, 1, 0)),
            r is None ==> forall|j: int| 0 <= j < is@.len() ==> (#[trigger] is@[j]).t < 0,
            r is Some ==> r.unwrap().t >= 0 && forall|j: int|
                0 <= j < is@.len() && (#[trigger] is@[j]).t >= 0 ==> r.unwrap().t <= is@[j].t,
    {
        if is.len() == 0 {
            return None;
        }
        let mut ci: usize = 0;
        let n = is.len();
        let mut i: usize = 1;
        while i < n
            invariant
                n == is@.len(),
                0 < n,
                ci < i <= n,
                hit_scan(is@, i as int, ci as int) == hit_scan(is@, 1, 0),
            decreases n - i,
        {
            if is[ci].t < 0 && is[i].t >= 0 {
                ci = i;
            } else if is[i].t < is[ci].t && is[i].t >= 0 {
                ci = i;
            }
            i = i + 1;
        }
        proof {
            lemma_hit_scan_min(is@, 1, 0);
        }
        if is[ci].t < 0 {
            None
        } else {
            Some(&is[ci])
        }
    }
}

/// The index of the winning hit, scanned as the selection loop does: from
/// index `i` on, starting from candidate `ci`; a nonnegative `t` beats a
/// negative one, a strictly smaller nonnegative `t` beats the candidate.
pub open spec fn hit_scan(s: Seq<Intersection>, i: int, ci: int) -> int
    decreases s.len() - i,
{
    if i < 0 || i >= s.len() {
        ci
    } else {
        let ni = if s[ci].t < 0 && s[i].t >= 0 {
            i
        } else if s[i].t < s[ci].t && s[i].t >= 0 {
            i
        } else {
            ci
        };
        hit_scan(s, i + 1, ni)
    }
}

/// The scanned index lands on a record whose `t` is minimal among the
/// nonnegative ones, or on a negative `t` only when every `t` is negative.
proof fn lemma_hit_scan_min(s: Seq<Intersection>, i: int, ci: int)
    requires
        0 < i <= s.len(),
        0 <= ci < s.len(),
        s[ci].t < 0 ==> forall|j: int| 0 <= j < i ==> (#[trigger] s[j]).t < 0,
        s[ci].t >= 0 ==> forall|j: int|
            0 <= j < i && (#[trigger] s[j]).t >= 0 ==> s[ci].t <= s[j].t,
    ensures
        0 <= hit_scan(s, i, ci) < s.len(),
        s[hit_scan(s, i, ci)].t < 0 ==> forall|j: int|
            0 <= j < s.len() ==> (#[trigger] s[j]).t < 0,
        s[hit_scan(s, i, ci)].t >= 0 ==> forall|j: int|
            0 <= j < s.len() && (#[trigger] s[j]).t >= 0 ==> s[hit_scan(s, i, ci)].t <= s[j].t,
    decreases s.len() - i,
{
    if i == s.len() {
    } else {
        let ni = if s[ci].t < 0 && s[i].t >= 0 {
            i
        } else if s[i].t < s[ci].t && s[i].t >= 0 {
            i
        } else {
            ci
        };
        lemma_hit_scan_min(s, i + 1, ni);
    }
}

/// The quadratic coefficients fit the 128-bit intermediates.
proof fn lemma_isect_products_fit(a: int, b: int, c: int)
    requires
        iabs(a) <= 1_200_000_000_000_000_000,
        iabs(b) <= 2_400_000_000_000_000_000,
        iabs(c) <= 1_200_000_000_000_000_000 + SCALE as int,
    ensures
        iabs(b * b) <= 5_760_000_000_000_000_000_000_000_000_000_000_000,
        iabs(4 * a * c) <= 5_760_004_800_000_000_000_000_000_000_000_000_000,
        iabs(b * b - 4 * a * c) <= 11_520_004_800_000_000_000_000_000_000_000_000_000,
{
    assert(iabs(b * b) == iabs(b) * iabs(b)) by (nonlinear_arith);
    assert(iabs(4 * a * c) == 4 * (iabs(a) * iabs(c))) by (nonlinear_arith);
    vstd::arithmetic::mul::lemma_mul_upper_bound(
        iabs(b),
        2_400_000_000_000_000_000,
        iabs(b),
        2_400_000_000_000_000_000,
    );
    vstd::arithmetic::mul::lemma_mul_upper_bound(
        iabs(a),
        1_200_000_000_000_000_000,
        iabs(c),
        1_200_000_000_000_000_000 + SCALE as int,
    );
}

/// The root numerators fit the 128-bit intermediates.
proof fn lemma_isect_root_bounds(a: int, b: int, sq: int)
    requires
        iabs(b) <= 2_400_000_000_000_000_000,
        0 <= sq <= 0x3FFFFFFFFFFFFFFF,
    ensures
        iabs(-b - sq) <= 7_011_686_018_427_387_903,
        iabs(-b + sq) <= 7_011_686_018_427_387_903,
{
}

} // verus!
