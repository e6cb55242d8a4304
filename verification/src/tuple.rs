//! The kind-tagged tuple: a point, vector or color with fixed-point
//! coordinates, and its algebra.
//!
//! Every operation states in its contract the exact fixed-point result and
//! the kinds on which it succeeds; a disallowed combination of kinds is a
//! `KindMismatch` error, never a panic.

use vstd::prelude::*;
use crate::common::{
    approx, fdiv, fmul, f_equal, fp_div, fp_mul, iabs, isqrt, isqrt_u128, lemma_isqrt,
    lemma_tdiv_abs, tdiv, TraceError, EPS_UNITS, SCALE,
};

verus! {

/// Coordinate magnitude accepted by the products and the magnitude
/// (a fixed-point range limit; the real 2e5).
pub const DOT_LIMIT: i64 = 2_000_000_000_000;

/// What a tuple stands for: a point has an implicit homogeneous coordinate
/// of one, a vector of zero, and a color has none.
#[derive(Clone, Copy, Debug, PartialEq, Eq, Structural)]
pub enum Kind {
    Point,
    Vector,
    Color,
}

/// A 3-component value with a kind tag; coordinates are fixed-point units.
#[derive(Clone, Copy, Debug)]
pub struct Tuple {
    pub x: i64,
    pub y: i64,
    pub z: i64,
    pub kind: Kind,
}

/// All three coordinates fit within magnitude `m`.
pub open spec fn coords_le(t: Tuple, m: int) -> bool {
    iabs(t.x as int) <= m && iabs(t.y as int) <= m && iabs(t.z as int) <= m
}

/// The value fits in an `i64`.
pub open spec fn in_i64(v: int) -> bool {
    i64::MIN <= v <= i64::MAX
}

/// Tolerance-based tuple equality: kinds match exactly and each coordinate
/// pair differs by less than the tolerance.
pub open spec fn approx_tuple(a: Tuple, b: Tuple) -> bool {
    a.kind == b.kind && approx(a.x as int, b.x as int) && approx(a.y as int, b.y as int)
        && approx(a.z as int, b.z as int)
}

/// The kind combinations on which addition is defined.
pub open spec fn add_ok(a: Kind, b: Kind) -> bool {
    match (a, b) {
        (Kind::Vector, Kind::Vector) => true,
        (Kind::Point, Kind::Vector) => true,
        (Kind::Vector, Kind::Point) => true,
        (Kind::Color, Kind::Color) => true,
        _ => false,
    }
}

/// The kind of a sum.
pub open spec fn add_kind(a: Kind, b: Kind) -> Kind {
    match (a, b) {
        (Kind::Vector, Kind::Vector) => Kind::Vector,
        (Kind::Color, Kind::Color) => Kind::Color,
        _ => Kind::Point,
    }
}

/// The kind combinations on which subtraction is defined.
pub open spec fn sub_ok(a: Kind, b: Kind) -> bool {
    match (a, b) {
        (Kind::Vector, Kind::Vector) => true,
        (Kind::Point, Kind::Vector) => true,
        (Kind::Point, Kind::Point) => true,
        (Kind::Color, Kind::Color) => true,
        _ => false,
    }
}

/// The kind of a difference.
pub open spec fn sub_kind(a: Kind, b: Kind) -> Kind {
    match (a, b) {
        (Kind::Point, Kind::Vector) => Kind::Point,
        (Kind::Color, Kind::Color) => Kind::Color,
        _ => Kind::Vector,
    }
}

/// The kind combinations on which the dot product is defined.
pub open spec fn dot_ok(a: Kind, b: Kind) -> bool {
    match (a, b) {
        (Kind::Vector, Kind::Vector) => true,
        (Kind::Point, Kind::Vector) => true,
        (Kind::Vector, Kind::Point) => true,
        _ => false,
    }
}

pub open spec fn add_fits(a: Tuple, b: Tuple) -> bool {
    in_i64(a.x + b.x) && in_i64(a.y + b.y) && in_i64(a.z + b.z)
}

pub open spec fn spec_add(a: Tuple, b: Tuple) -> Tuple {
    Tuple {
        x: (a.x + b.x) as i64,
        y: (a.y + b.y) as i64,
        z: (a.z + b.z) as i64,
        kind: add_kind(a.kind, b.kind),
    }
}

pub open spec fn sub_fits(a: Tuple, b: Tuple) -> bool {
    in_i64(a.x - b.x) && in_i64(a.y - b.y) && in_i64(a.z - b.z)
}

pub open spec fn spec_sub(a: Tuple, b: Tuple) -> Tuple {
    Tuple {
        x: (a.x - b.x) as i64,
        y: (a.y - b.y) as i64,
        z: (a.z - b.z) as i64,
        kind: sub_kind(a.kind, b.kind),
    }
}

pub open spec fn neg_fits(a: Tuple) -> bool {
    a.x > i64::MIN && a.y > i64::MIN && a.z > i64::MIN
}

pub open spec fn spec_neg(a: Tuple) -> Tuple {
    Tuple { x: (-a.x) as i64, y: (-a.y) as i64, z: (-a.z) as i64, kind: a.kind }
}

pub open spec fn scale_fits(a: Tuple, k: int) -> bool {
    in_i64(fmul(a.x as int, k)) && in_i64(fmul(a.y as int, k)) && in_i64(fmul(a.z as int, k))
}

pub open spec fn spec_scale(a: Tuple, k: int) -> Tuple {
    Tuple {
        x: fmul(a.x as int, k) as i64,
        y: fmul(a.y as int, k) as i64,
        z: fmul(a.z as int, k) as i64,
        kind: a.kind,
    }
}

pub open spec fn div_fits(a: Tuple, k: int) -> bool {
    in_i64(fdiv(a.x as int, k)) && in_i64(fdiv(a.y as int, k)) && in_i64(fdiv(a.z as int, k))
}

pub open spec fn spec_divide(a: Tuple, k: int) -> Tuple {
    Tuple {
        x: fdiv(a.x as int, k) as i64,
        y: fdiv(a.y as int, k) as i64,
        z: fdiv(a.z as int, k) as i64,
        kind: a.kind,
    }
}

/// The fixed-point dot product: products accumulated exactly, one rounding.
pub open spec fn spec_dot(a: Tuple, b: Tuple) -> int {
    tdiv(a.x * b.x + a.y * b.y + a.z * b.z, SCALE as int)
}

pub open spec fn spec_cross(a: Tuple, b: Tuple) -> Tuple {
    Tuple {
        x: (fmul(a.y as int, b.z as int) - fmul(a.z as int, b.y as int)) as i64,
        y: (fmul(a.z as int, b.x as int) - fmul(a.x as int, b.z as int)) as i64,
        z: (fmul(a.x as int, b.y as int) - fmul(a.y as int, b.x as int)) as i64,
        kind: Kind::Vector,
    }
}

pub open spec fn spec_hadamard(a: Tuple, b: Tuple) -> Tuple {
    Tuple {
        x: fmul(a.x as int, b.x as int) as i64,
        y: fmul(a.y as int, b.y as int) as i64,
        z: fmul(a.z as int, b.z as int) as i64,
        kind: a.kind,
    }
}

/// The magnitude of a vector, in units: the integer square root of the sum
/// of the squared unit coordinates.
pub open spec fn spec_mag(t: Tuple) -> int {
    isqrt(t.x * t.x + t.y * t.y + t.z * t.z)
}

/// The normalized vector: each coordinate divided by the magnitude.
pub open spec fn spec_norm(t: Tuple) -> Tuple {
    Tuple {
        x: fdiv(t.x as int, spec_mag(t)) as i64,
        y: fdiv(t.y as int, spec_mag(t)) as i64,
        z: fdiv(t.z as int, spec_mag(t)) as i64,
        kind: Kind::Vector,
    }
}

/// Vector reflection about a normal: `v - normal * (2 * dot(v, normal))`.
pub open spec fn spec_reflect(v: Tuple, n: Tuple) -> Tuple {
    spec_sub(v, spec_scale(n, 2 * spec_dot(v, n)))
}

impl Tuple {
    /// A point: homogeneous coordinate one.
    pub fn point(x: i64, y: i64, z: i64) -> (r: Tuple)
        ensures
            r == (Tuple { x, y, z, kind: Kind::Point }),
    {
        Tuple { x, y, z, kind: Kind::Point }
    }

    /// A vector: homogeneous coordinate zero.
    pub fn vector(x: i64, y: i64, z: i64) -> (r: Tuple)
        ensures
            r == (Tuple { x, y, z, kind: Kind::Vector }),
    {
        Tuple { x, y, z, kind: Kind::Vector }
    }

    /// A color: red, green and blue in the coordinate slots.
    pub fn color(x: i64, y: i64, z: i64) -> (r: Tuple)
        ensures
            r == (Tuple { x, y, z, kind: Kind::Color }),
    {
        Tuple { x, y, z, kind: Kind::Color }
    }

    /// Component-wise sum. Defined for vector+vector, point+vector,
    /// vector+point and color+color; anything else is a `KindMismatch`.
    pub fn add(&self, other: &Tuple) -> (r: Result<Tuple, TraceError>)
        requires
            add_fits(*self, *other),
        ensures
            add_ok(self.kind, other.kind) ==> r == Ok::<Tuple, TraceError>(
                spec_add(*self, *other),
            ),
            !add_ok(self.kind, other.kind) ==> r == Err::<Tuple, TraceError>(
                TraceError::KindMismatch,
            ),
    {
        match (self.kind, other.kind) {
            (Kind::Vector, Kind::Vector) | (Kind::Point, Kind::Vector) | (
                Kind::Vector,
                Kind::Point,
            ) | (Kind::Color, Kind::Color) => Ok(
                Tuple {
                    x: self.x + other.x,
                    y: self.y + other.y,
                    z: self.z + other.z,
                    kind: add_kind_exec(self.kind, other.kind),
                },
            ),
            _ => Err(TraceError::KindMismatch),
        }
    }

    /// Component-wise difference. Defined for vector-vector, point-vector,
    /// point-point and color-color; anything else is a `KindMismatch`.
    pub fn sub(&self, other: &Tuple) -> (r: Result<Tuple, TraceError>)
        requires
            sub_fits(*self, *other),
        ensures
            sub_ok(self.kind, other.kind) ==> r == Ok::<Tuple, TraceError>(
                spec_sub(*self, *other),
            ),
            !sub_ok(self.kind, other.kind) ==> r == Err::<Tuple, TraceError>(
                TraceError::KindMismatch,
            ),
    {
        match (self.kind, other.kind) {
            (Kind::Vector, Kind::Vector) | (Kind::Point, Kind::Vector) | (
                Kind::Point,
                Kind::Point,
            ) | (Kind::Color, Kind::Color) => Ok(
                Tuple {
                    x: self.x - other.x,
                    y: self.y - other.y,
                    z: self.z - other.z,
                    kind: sub_kind_exec(self.kind, other.kind),
                },
            ),
            _ => Err(TraceError::KindMismatch),
        }
    }

    /// Component-wise negation; every kind is allowed and kept.
    pub fn neg(&self) -> (r: Tuple)
        requires
            neg_fits(*self),
        ensures
            r == spec_neg(*self),
    {
        Tuple { x: -self.x, y: -self.y, z: -self.z, kind: self.kind }
    }

    /// Scaling by a fixed-point scalar; every kind is allowed and kept.
    pub fn mul(&self, k: i64) -> (r: Tuple)
        requires
            scale_fits(*self, k as int),
        ensures
            r == spec_scale(*self, k as int),
    {
        Tuple {
            x: fp_mul(self.x, k),
            y: fp_mul(self.y, k),
            z: fp_mul(self.z, k),
            kind: self.kind,
        }
    }

    /// Division by a fixed-point scalar; colors are rejected.
    pub fn div(&self, k: i64) -> (r: Result<Tuple, TraceError>)
        requires
            k != 0,
            div_fits(*self, k as int),
        ensures
            self.kind != Kind::Color ==> r == Ok::<Tuple, TraceError>(
                spec_divide(*self, k as int),
            ),
            self.kind == Kind::Color ==> r == Err::<Tuple, TraceError>(TraceError::KindMismatch),
    {
        match self.kind {
            Kind::Color => Err(TraceError::KindMismatch),
            _ => Ok(
                Tuple {
                    x: fp_div(self.x, k),
                    y: fp_div(self.y, k),
                    z: fp_div(self.z, k),
                    kind: self.kind,
                },
            ),
        }
    }

    /// Dot product; defined between vectors, or a vector and a point,
    /// never on colors or two points.
    pub fn dot(&self, other: &Tuple) -> (r: Result<i64, TraceError>)
        requires
            coords_le(*self, DOT_LIMIT as int),
            coords_le(*other, DOT_LIMIT as int),
        ensures
            dot_ok(self.kind, other.kind) ==> r == Ok::<i64, TraceError>(
                spec_dot(*self, *other) as i64,
            ),
            !dot_ok(self.kind, other.kind) ==> r == Err::<i64, TraceError>(
                TraceError::KindMismatch,
            ),
            dot_ok(self.kind, other.kind) ==> r.unwrap() as int == spec_dot(*self, *other),
    {
        match (self.kind, other.kind) {
            (Kind::Vector, Kind::Vector) | (Kind::Point, Kind::Vector) | (
                Kind::Vector,
                Kind::Point,
            ) => {
                proof {
                    lemma_sum3_bound(
                        self.x as int,
                        self.y as int,
                        self.z as int,
                        other.x as int,
                        other.y as int,
                        other.z as int,
                    );
                }
                let s: i128 = (self.x as i128) * (other.x as i128) + (self.y as i128)
                    * (other.y as i128) + (self.z as i128) * (other.z as i128);
                let q = crate::common::tdiv_i128(s, SCALE as i128);
                Ok(q as i64)
            },
            _ => Err(TraceError::KindMismatch),
        }
    }

    /// Cross product of two vectors.
    pub fn cross(&self, other: Tuple) -> (r: Result<Tuple, TraceError>)
        requires
            coords_le(*self, DOT_LIMIT as int),
            coords_le(other, DOT_LIMIT as int),
        ensures
            self.kind == Kind::Vector && other.kind == Kind::Vector ==> r == Ok::<
                Tuple,
                TraceError,
            >(spec_cross(*self, other)),
            !(self.kind == Kind::Vector && other.kind == Kind::Vector) ==> r == Err::<
                Tuple,
                TraceError,
            >(TraceError::KindMismatch),
    {
        match (self.kind, other.kind) {
            (Kind::Vector, Kind::Vector) => {
                proof {
                    lemma_cross_fits(*self, other);
                }
                Ok(
                    Tuple {
                        x: fp_mul(self.y, other.z) - fp_mul(self.z, other.y),
                        y: fp_mul(self.z, other.x) - fp_mul(self.x, other.z),
                        z: fp_mul(self.x, other.y) - fp_mul(self.y, other.x),
                        kind: Kind::Vector,
                    },
                )
            },
            _ => Err(TraceError::KindMismatch),
        }
    }

    /// Hadamard (component-wise) product of two tuples of the same kind.
    pub fn hadamard_product(&self, other: Tuple) -> (r: Result<Tuple, TraceError>)
        requires
            coords_le(*self, DOT_LIMIT as int),
            coords_le(other, DOT_LIMIT as int),
        ensures
            self.kind == other.kind ==> r == Ok::<Tuple, TraceError>(spec_hadamard(*self, other)),
            self.kind != other.kind ==> r == Err::<Tuple, TraceError>(TraceError::KindMismatch),
    {
        if kind_eq(self.kind, other.kind) {
            proof {
                lemma_hadamard_fits(*self, other);
            }
            Ok(
                Tuple {
                    x: fp_mul(self.x, other.x),
                    y: fp_mul(self.y, other.y),
                    z: fp_mul(self.z, other.z),
                    kind: self.kind,
                },
            )
        } else {
            Err(TraceError::KindMismatch)
        }
    }

    /// Magnitude: the Euclidean norm for a vector; zero for a point, by
    /// convention rather than by geometry; undefined for a color.
    pub fn mag(&self) -> (r: i64)
        requires
            self.kind != Kind::Color,
            coords_le(*self, DOT_LIMIT as int),
        ensures
            self.kind == Kind::Vector ==> r as int == spec_mag(*self),
            self.kind == Kind::Point ==> r == 0,
            r >= 0,
    {
        match self.kind {
            Kind::Point => 0,
            _ => {
                proof {
                    lemma_sum_squares_bound(*self);
                }
                let q: u128 = square_u128(self.x) + square_u128(self.y) + square_u128(self.z);
                let r = isqrt_u128(q);
                proof {
                    lemma_isqrt(q as int);
                    crate::common::lemma_isqrt_le(q as int, 0xFFFFFFFFFFF);
                }
                r as i64
            },
        }
    }

    /// Normalization of a vector: each coordinate divided by the magnitude.
    /// A non-vector is a `KindMismatch`; a zero vector a `ZeroMagnitude`.
    /// The result's coordinates never exceed one in magnitude.
    pub fn norm(&self) -> (r: Result<Tuple, TraceError>)
        requires
            coords_le(*self, DOT_LIMIT as int),
        ensures
            self.kind == Kind::Vector && spec_mag(*self) > 0 ==> r == Ok::<Tuple, TraceError>(
                spec_norm(*self),
            ) && coords_le(spec_norm(*self), SCALE as int),
            self.kind != Kind::Vector ==> r == Err::<Tuple, TraceError>(TraceError::KindMismatch),
            self.kind == Kind::Vector && spec_mag(*self) == 0 ==> r == Err::<Tuple, TraceError>(
                TraceError::ZeroMagnitude,
            ),
    {
        match self.kind {
            Kind::Vector => {
                let m = self.mag();
                if m == 0 {
                    Err(TraceError::ZeroMagnitude)
                } else {
                    proof {
                        lemma_norm_coord_fits(*self);
                    }
                    Ok(
                        Tuple {
                            x: fp_div(self.x, m),
                            y: fp_div(self.y, m),
                            z: fp_div(self.z, m),
                            kind: Kind::Vector,
                        },
                    )
                }
            },
            _ => Err(TraceError::KindMismatch),
        }
    }

    /// Reflection of a vector about a normal vector.
    pub fn reflect(&self, normal: Tuple) -> (r: Result<Tuple, TraceError>)
        requires
            coords_le(*self, SCALE as int),
            coords_le(normal, SCALE as int),
        ensures
            self.kind == Kind::Vector && normal.kind == Kind::Vector ==> r == Ok::<
                Tuple,
                TraceError,
            >(spec_reflect(*self, normal)),
            !(self.kind == Kind::Vector && normal.kind == Kind::Vector) ==> r == Err::<
                Tuple,
                TraceError,
            >(TraceError::KindMismatch),
    {
        match (self.kind, normal.kind) {
            (Kind::Vector, Kind::Vector) => {
                proof {
                    lemma_reflect_fits(*self, normal);
                }
                let d = match self.dot(&normal) {
                    Ok(d) => d,
                    Err(e) => { return Err(e) },
                };
                let scaled = normal.mul(2 * d);
                let out = match self.sub(&scaled) {
                    Ok(t) => t,
                    Err(e) => { return Err(e) },
                };
                Ok(out)
            },
            _ => Err(TraceError::KindMismatch),
        }
    }
}

/// Exec mirror of `add_kind`.
fn add_kind_exec(a: Kind, b: Kind) -> (r: Kind)
    ensures
        r == add_kind(a, b),
{
    match (a, b) {
        (Kind::Vector, Kind::Vector) => Kind::Vector,
        (Kind::Color, Kind::Color) => Kind::Color,
        _ => Kind::Point,
    }
}

/// Exec mirror of `sub_kind`.
fn sub_kind_exec(a: Kind, b: Kind) -> (r: Kind)
    ensures
        r == sub_kind(a, b),
{
    match (a, b) {
        (Kind::Point, Kind::Vector) => Kind::Point,
        (Kind::Color, Kind::Color) => Kind::Color,
        _ => Kind::Vector,
    }
}

/// Exec equality of kinds.
fn kind_eq(a: Kind, b: Kind) -> (r: bool)
    ensures
        r == (a == b),
{
    match (a, b) {
        (Kind::Point, Kind::Point) => true,
        (Kind::Vector, Kind::Vector) => true,
        (Kind::Color, Kind::Color) => true,
        _ => false,
    }
}

/// The square of an `i64`, as a `u128`.
fn square_u128(a: i64) -> (r: u128)
    ensures
        r == (a as int) * (a as int),
{
    proof {
        assert((a as int) * (a as int) == iabs(a as int) * iabs(a as int) && iabs(a as int) * iabs(
            a as int,
        ) <= 0x8000000000000000 * 0x8000000000000000) by (nonlinear_arith)
            requires
                i64::MIN <= a <= i64::MAX,
        ;
    }
    let m: u128 = if a < 0 {
        ((-(a as i128)) as u128)
    } else {
        a as u128
    };
    m * m
}

proof fn lemma_sum3_bound(ax: int, ay: int, az: int, bx: int, by: int, bz: int)
    requires
        iabs(ax) <= DOT_LIMIT as int,
        iabs(ay) <= DOT_LIMIT as int,
        iabs(az) <= DOT_LIMIT as int,
        iabs(bx) <= DOT_LIMIT as int,
        iabs(by) <= DOT_LIMIT as int,
        iabs(bz) <= DOT_LIMIT as int,
    ensures
        iabs(ax * bx) <= (DOT_LIMIT as int) * (DOT_LIMIT as int),
        iabs(ay * by) <= (DOT_LIMIT as int) * (DOT_LIMIT as int),
        iabs(az * bz) <= (DOT_LIMIT as int) * (DOT_LIMIT as int),
        iabs(ax * bx + ay * by + az * bz) <= 3 * (DOT_LIMIT as int) * (DOT_LIMIT as int),
        in_i64(tdiv(ax * bx + ay * by + az * bz, SCALE as int)),
{
    let l = DOT_LIMIT as int;
    assert(iabs(ax * bx) <= l * l && iabs(ay * by) <= l * l && iabs(az * bz) <= l * l)
        by (nonlinear_arith)
        requires
            iabs(ax) <= l,
            iabs(ay) <= l,
            iabs(az) <= l,
            iabs(bx) <= l,
            iabs(by) <= l,
            iabs(bz) <= l,
            l == DOT_LIMIT as int,
    ;
    lemma_tdiv_abs(ax * bx + ay * by + az * bz, SCALE as int);
    vstd::arithmetic::div_mod::lemma_div_is_ordered(
        iabs(ax * bx + ay * by + az * bz),
        3 * l * l,
        SCALE as int,
    );
}

proof fn lemma_cross_fits(a: Tuple, b: Tuple)
    requires
        coords_le(a, DOT_LIMIT as int),
        coords_le(b, DOT_LIMIT as int),
    ensures
        in_i64(fmul(a.y as int, b.z as int)),
        in_i64(fmul(a.z as int, b.y as int)),
        in_i64(fmul(a.z as int, b.x as int)),
        in_i64(fmul(a.x as int, b.z as int)),
        in_i64(fmul(a.x as int, b.y as int)),
        in_i64(fmul(a.y as int, b.x as int)),
        in_i64(fmul(a.y as int, b.z as int) - fmul(a.z as int, b.y as int)),
        in_i64(fmul(a.z as int, b.x as int) - fmul(a.x as int, b.z as int)),
        in_i64(fmul(a.x as int, b.y as int) - fmul(a.y as int, b.x as int)),
{
    let l = DOT_LIMIT as int;
    crate::common::lemma_fmul_bound(a.y as int, b.z as int, l, l);
    crate::common::lemma_fmul_bound(a.z as int, b.y as int, l, l);
    crate::common::lemma_fmul_bound(a.z as int, b.x as int, l, l);
    crate::common::lemma_fmul_bound(a.x as int, b.z as int, l, l);
    crate::common::lemma_fmul_bound(a.x as int, b.y as int, l, l);
    crate::common::lemma_fmul_bound(a.y as int, b.x as int, l, l);
}

proof fn lemma_hadamard_fits(a: Tuple, b: Tuple)
    requires
        coords_le(a, DOT_LIMIT as int),
        coords_le(b, DOT_LIMIT as int),
    ensures
        in_i64(fmul(a.x as int, b.x as int)),
        in_i64(fmul(a.y as int, b.y as int)),
        in_i64(fmul(a.z as int, b.z as int)),
{
    let l = DOT_LIMIT as int;
    crate::common::lemma_fmul_bound(a.x as int, b.x as int, l, l);
    crate::common::lemma_fmul_bound(a.y as int, b.y as int, l, l);
    crate::common::lemma_fmul_bound(a.z as int, b.z as int, l, l);
}

proof fn lemma_sum_squares_bound(t: Tuple)
    requires
        coords_le(t, DOT_LIMIT as int),
    ensures
        0 <= t.x * t.x <= (DOT_LIMIT as int) * (DOT_LIMIT as int),
        0 <= t.y * t.y <= (DOT_LIMIT as int) * (DOT_LIMIT as int),
        0 <= t.z * t.z <= (DOT_LIMIT as int) * (DOT_LIMIT as int),
        t.x * t.x + t.y * t.y + t.z * t.z < 0x100000000000 * 0x100000000000,
{
    let l = DOT_LIMIT as int;
    assert(0 <= t.x * t.x <= l * l && 0 <= t.y * t.y <= l * l && 0 <= t.z * t.z <= l * l)
        by (nonlinear_arith)
        requires
            iabs(t.x as int) <= l,
            iabs(t.y as int) <= l,
            iabs(t.z as int) <= l,
            l == DOT_LIMIT as int,
    ;
}

/// Each coordinate of a vector is bounded by the vector's magnitude, so the
/// normalized coordinates never exceed one in magnitude.
proof fn lemma_norm_coord_fits(t: Tuple)
    requires
        coords_le(t, DOT_LIMIT as int),
        spec_mag(t) > 0,
    ensures
        in_i64(fdiv(t.x as int, spec_mag(t))),
        in_i64(fdiv(t.y as int, spec_mag(t))),
        in_i64(fdiv(t.z as int, spec_mag(t))),
        iabs(fdiv(t.x as int, spec_mag(t))) <= SCALE as int,
        iabs(fdiv(t.y as int, spec_mag(t))) <= SCALE as int,
        iabs(fdiv(t.z as int, spec_mag(t))) <= SCALE as int,
{
    let q = t.x * t.x + t.y * t.y + t.z * t.z;
    let m = spec_mag(t);
    lemma_sum_squares_bound(t);
    lemma_isqrt(q);
    assert(t.x * t.x <= q && t.y * t.y <= q && t.z * t.z <= q);
    lemma_coord_le_mag(t.x as int, q, m);
    lemma_coord_le_mag(t.y as int, q, m);
    lemma_coord_le_mag(t.z as int, q, m);
    lemma_fdiv_le_scale(t.x as int, m);
    lemma_fdiv_le_scale(t.y as int, m);
    lemma_fdiv_le_scale(t.z as int, m);
}

/// A coordinate whose square is part of `q` is at most `isqrt(q)`.
proof fn lemma_coord_le_mag(x: int, q: int, m: int)
    requires
        x * x <= q,
        m >= 0,
        q < (m + 1) * (m + 1),
    ensures
        iabs(x) <= m,
{
    if iabs(x) > m {
        assert((m + 1) * (m + 1) <= iabs(x) * iabs(x)) by (nonlinear_arith)
            requires
                0 <= m + 1 <= iabs(x),
        ;
        assert(iabs(x) * iabs(x) == x * x) by (nonlinear_arith);
    }
}

/// Dividing a coordinate no larger than `m` by `m` keeps it within one.
proof fn lemma_fdiv_le_scale(x: int, m: int)
    requires
        m > 0,
        iabs(x) <= m,
    ensures
        iabs(fdiv(x, m)) <= SCALE as int,
        in_i64(fdiv(x, m)),
{
    let s = SCALE as int;
    lemma_tdiv_abs(x * s, m);
    assert(iabs(x * s) == iabs(x) * s) by (nonlinear_arith)
        requires
            s > 0,
    ;
    assert(iabs(x) * s <= m * s) by (nonlinear_arith)
        requires
            iabs(x) <= m,
            s > 0,
    ;
    vstd::arithmetic::div_mod::lemma_div_is_ordered(iabs(x) * s, m * s, m);
    vstd::arithmetic::div_mod::lemma_div_by_multiple(s, m);
    assert(m * s == s * m) by (nonlinear_arith);
}

proof fn lemma_reflect_fits(v: Tuple, n: Tuple)
    requires
        coords_le(v, SCALE as int),
        coords_le(n, SCALE as int),
    ensures
        coords_le(v, DOT_LIMIT as int),
        coords_le(n, DOT_LIMIT as int),
        in_i64(2 * spec_dot(v, n)),
        scale_fits(n, 2 * spec_dot(v, n)),
        sub_fits(v, spec_scale(n, 2 * spec_dot(v, n))),
{
    let s = SCALE as int;
    lemma_sum3_bound(v.x as int, v.y as int, v.z as int, n.x as int, n.y as int, n.z as int);
    lemma_tdiv_abs(v.x * n.x + v.y * n.y + v.z * n.z, s);
    assert(iabs(v.x * n.x) <= s * s && iabs(v.y * n.y) <= s * s && iabs(v.z * n.z) <= s * s)
        by (nonlinear_arith)
        requires
            iabs(v.x as int) <= s,
            iabs(v.y as int) <= s,
            iabs(v.z as int) <= s,
            iabs(n.x as int) <= s,
            iabs(n.y as int) <= s,
            iabs(n.z as int) <= s,
    ;
    vstd::arithmetic::div_mod::lemma_div_is_ordered(
        iabs(v.x * n.x + v.y * n.y + v.z * n.z),
        3 * s * s,
        s,
    );
    vstd::arithmetic::div_mod::lemma_div_by_multiple(3 * s, s);
    let d = spec_dot(v, n);
    assert(iabs(d) <= 3 * s);
    assert(iabs(2 * d) <= 6 * s);
    crate::common::lemma_fmul_bound(n.x as int, 2 * d, s, 6 * s);
    crate::common::lemma_fmul_bound(n.y as int, 2 * d, s, 6 * s);
    crate::common::lemma_fmul_bound(n.z as int, 2 * d, s, 6 * s);
}

/// The dot product of coordinate-bounded tuples is bounded.
pub proof fn lemma_dot_bound(a: Tuple, b: Tuple)
    requires
        coords_le(a, DOT_LIMIT as int),
        coords_le(b, DOT_LIMIT as int),
    ensures
        iabs(spec_dot(a, b)) <= 1_200_000_000_000_000_000,
{
    lemma_sum3_bound(a.x as int, a.y as int, a.z as int, b.x as int, b.y as int, b.z as int);
    let s = a.x * b.x + a.y * b.y + a.z * b.z;
    lemma_tdiv_abs(s, SCALE as int);
    vstd::arithmetic::div_mod::lemma_div_is_ordered(
        iabs(s),
        3 * (DOT_LIMIT as int) * (DOT_LIMIT as int),
        SCALE as int,
    );
    assert(3 * (DOT_LIMIT as int) * (DOT_LIMIT as int) == 12_000_000_000_000_000_000_000_000);
    assert(12_000_000_000_000_000_000_000_000int / (SCALE as int) == 1_200_000_000_000_000_000);
}

/// The dot product of unit-range tuples is at most three.
pub proof fn lemma_dot_unit_bound(a: Tuple, b: Tuple)
    requires
        coords_le(a, SCALE as int),
        coords_le(b, SCALE as int),
    ensures
        iabs(spec_dot(a, b)) <= 3 * SCALE as int,
{
    let s = SCALE as int;
    assert(iabs(a.x * b.x) <= s * s && iabs(a.y * b.y) <= s * s && iabs(a.z * b.z) <= s * s)
        by (nonlinear_arith)
        requires
            iabs(a.x as int) <= s,
            iabs(a.y as int) <= s,
            iabs(a.z as int) <= s,
            iabs(b.x as int) <= s,
            iabs(b.y as int) <= s,
            iabs(b.z as int) <= s,
    ;
    lemma_tdiv_abs(a.x * b.x + a.y * b.y + a.z * b.z, s);
    vstd::arithmetic::div_mod::lemma_div_is_ordered(
        iabs(a.x * b.x + a.y * b.y + a.z * b.z),
        3 * s * s,
        s,
    );
    vstd::arithmetic::div_mod::lemma_div_by_multiple(3 * s, s);
}

/// The dot product of a tuple with itself is nonnegative.
pub proof fn lemma_dot_self_nonneg(a: Tuple)
    ensures
        spec_dot(a, a) >= 0,
{
    assert(a.x * a.x >= 0 && a.y * a.y >= 0 && a.z * a.z >= 0) by (nonlinear_arith);
    crate::common::lemma_tdiv_nonneg(a.x * a.x + a.y * a.y + a.z * a.z, SCALE as int);
}

/// Adding a tuple and then subtracting it restores the original exactly:
/// for every legal kind pair, `(a + b) - b == a`, kind included.
pub proof fn lemma_add_sub_cancel(a: Tuple, b: Tuple)
    requires
        add_ok(a.kind, b.kind),
        add_fits(a, b),
    ensures
        sub_ok(spec_add(a, b).kind, b.kind),
        spec_sub(spec_add(a, b), b) == a,
{
}

/// Negating twice restores the original exactly.
pub proof fn lemma_neg_involution(a: Tuple)
    requires
        neg_fits(a),
    ensures
        spec_neg(spec_neg(a)) == a,
{
}

/// One normalized coordinate, squared and rescaled by the magnitude,
/// differs from the exact squared coordinate by at most `2 m^2 s`.
proof fn lemma_sq_close(x: int, m: int)
    requires
        m > 0,
        iabs(x) <= m,
    ensures
        iabs(
            fdiv(x, m) * fdiv(x, m) * (m * m) - x * x * ((SCALE as int) * (SCALE as int)),
        ) <= 2 * (m * m) * (SCALE as int),
{
    let s = SCALE as int;
    let xp = fdiv(x, m);
    crate::common::lemma_tdiv_product_err(x * s, m);
    assert(iabs(x * s) == iabs(x) * s) by (nonlinear_arith)
        requires
            s > 0,
    ;
    assert(iabs(x) * s <= m * s) by (nonlinear_arith)
        requires
            iabs(x) <= m,
            s > 0,
    ;
    let av = xp * m;
    let bv = x * s;
    assert(iabs(av - bv) < m);
    assert(iabs(av) <= m * s);
    assert(iabs(bv) <= m * s);
    assert(av * av - bv * bv == (av - bv) * (av + bv)) by (nonlinear_arith);
    assert(iabs((av - bv) * (av + bv)) == iabs(av - bv) * iabs(av + bv)) by (nonlinear_arith);
    assert(iabs(av + bv) <= iabs(av) + iabs(bv));
    vstd::arithmetic::mul::lemma_mul_upper_bound(iabs(av - bv), m, iabs(av + bv), 2 * (m * s));
    assert(m * (2 * (m * s)) == 2 * (m * m) * s) by (nonlinear_arith);
    assert(av * av == xp * xp * (m * m)) by (nonlinear_arith)
        requires
            av == xp * m,
    ;
    assert(bv * bv == x * x * (s * s)) by (nonlinear_arith)
        requires
            bv == x * s,
    ;
}

/// The magnitude of a normalized vector is one, within the tolerance: for
/// every vector whose coordinates are in range and whose magnitude is at
/// least 0.02 (in fixed-point units, 200000), normalizing and then taking
/// the magnitude lands within `EPS_UNITS` of one. (For far smaller vectors
/// the rounding of the division can dominate, so they are excluded.)
pub proof fn lemma_normalize_magnitude(t: Tuple)
    requires
        t.kind == Kind::Vector,
        coords_le(t, DOT_LIMIT as int),
        spec_mag(t) >= 200_000,
    ensures
        approx(spec_mag(spec_norm(t)), SCALE as int),
{
    let s = SCALE as int;
    let q = t.x * t.x + t.y * t.y + t.z * t.z;
    let m = spec_mag(t);
    lemma_sum_squares_bound(t);
    lemma_isqrt(q);
    assert(t.x * t.x <= q && t.y * t.y <= q && t.z * t.z <= q);
    lemma_coord_le_mag(t.x as int, q, m);
    lemma_coord_le_mag(t.y as int, q, m);
    lemma_coord_le_mag(t.z as int, q, m);
    lemma_norm_coord_fits(t);
    let xp = fdiv(t.x as int, m);
    let yp = fdiv(t.y as int, m);
    let zp = fdiv(t.z as int, m);
    let qp = xp * xp + yp * yp + zp * zp;
    assert(spec_norm(t).x as int == xp && spec_norm(t).y as int == yp && spec_norm(t).z as int
        == zp);
    lemma_sq_close(t.x as int, m);
    lemma_sq_close(t.y as int, m);
    lemma_sq_close(t.z as int, m);
    assert(qp * (m * m) - q * (s * s) == (xp * xp * (m * m) - t.x * t.x * (s * s)) + (yp * yp * (m
        * m) - t.y * t.y * (s * s)) + (zp * zp * (m * m) - t.z * t.z * (s * s)))
        by (nonlinear_arith)
        requires
            qp == xp * xp + yp * yp + zp * zp,
            q == t.x * t.x + t.y * t.y + t.z * t.z,
    ;
    assert(iabs(qp * (m * m) - q * (s * s)) <= 6 * (m * m) * s);
    assert(q * (s * s) >= (m * m) * (s * s)) by (nonlinear_arith)
        requires
            q >= m * m,
            s > 0,
    ;
    assert(qp * (m * m) >= (m * m) * (s * s) - 6 * (m * m) * s);
    assert((m * m) * (s * s) - 6 * (m * m) * s == (m * m) * (s * s - 6 * s)) by (nonlinear_arith);
    assert(qp >= s * s - 6 * s) by (nonlinear_arith)
        requires
            qp * (m * m) >= (m * m) * (s * s - 6 * s),
            m > 0,
    ;
    assert(q * (s * s) <= ((m + 1) * (m + 1) - 1) * (s * s)) by (nonlinear_arith)
        requires
            q < (m + 1) * (m + 1),
            s > 0,
    ;
    assert(qp * (m * m) <= ((m + 1) * (m + 1) - 1) * (s * s) + 6 * (m * m) * s);
    assert(((m + 1) * (m + 1) - 1) * (s * s) + 6 * (m * m) * s < (m * m) * ((s + 100) * (s + 100)))
        by (nonlinear_arith)
        requires
            m >= 200_000,
            s == 10_000_000,
    ;
    assert(qp < (s + 100) * (s + 100)) by (nonlinear_arith)
        requires
            qp * (m * m) < (m * m) * ((s + 100) * (s + 100)),
            m > 0,
    ;
    assert(qp >= 0) by (nonlinear_arith)
        requires
            qp == xp * xp + yp * yp + zp * zp,
    ;
    let r = isqrt(qp);
    lemma_isqrt(qp);
    assert(r * r <= qp < (r + 1) * (r + 1));
    assert(r < s + 100) by (nonlinear_arith)
        requires
            r >= 0,
            r * r <= qp,
            qp < (s + 100) * (s + 100),
            s > 0,
    ;
    assert(s * s - 6 * s > (s - 99) * (s - 99)) by (nonlinear_arith)
        requires
            s == 10_000_000,
    ;
    assert(r + 1 > s - 99) by (nonlinear_arith)
        requires
            qp < (r + 1) * (r + 1),
            qp > (s - 99) * (s - 99),
            r >= 0,
            s == 10_000_000,
    ;
    assert(spec_mag(spec_norm(t)) == r);
    assert(iabs(r - s) < EPS_UNITS);
}

impl PartialEq for Tuple {
    /// Tolerance-based equality: kinds must match exactly, coordinates
    /// within `EPS_UNITS`.
    fn eq(&self, other: &Tuple) -> (r: bool) {
        kind_eq(self.kind, other.kind) && f_equal(self.x, other.x) && f_equal(self.y, other.y)
            && f_equal(self.z, other.z)
    }
}

impl vstd::std_specs::cmp::PartialEqSpecImpl for Tuple {
    open spec fn obeys_eq_spec() -> bool {
        true
    }

    open spec fn eq_spec(&self, other: &Tuple) -> bool {
        approx_tuple(*self, *other)
    }
}

} // verus!
