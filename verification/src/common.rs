//! Fixed-point scalars and approximate equality.
//!
//! A scalar is an `i64` count of units; `SCALE` units represent the real
//! number one. Multiplication and division round toward zero, one rounding
//! per operation, and square roots are integer square roots, so every
//! operation is pinned to an exact integer result.

use vstd::prelude::*;

verus! {

/// Number of fixed-point units that represent the real number one.
pub const SCALE: i64 = 10_000_000;

/// The comparison tolerance (the real 1e-5) in fixed-point units.
pub const EPS_UNITS: i64 = 100;

/// The errors a kernel operation can report.
///
/// `KindMismatch`, `SingularMatrix` and `DimensionMismatch` reject ill-formed
/// geometry; `ZeroMagnitude` rejects normalizing a zero vector; `OutOfRange`
/// reports a result that does not fit the fixed-point range (the analogue of
/// floating-point overflow).
#[derive(Clone, Copy, Debug, PartialEq, Eq, Structural)]
pub enum TraceError {
    KindMismatch,
    SingularMatrix,
    DimensionMismatch,
    ZeroMagnitude,
    OutOfRange,
}

/// Absolute value of a mathematical integer.
pub open spec fn iabs(a: int) -> int {
    if a >= 0 {
        a
    } else {
        -a
    }
}

/// Tolerance-based equality: the two scalars differ by less than `EPS_UNITS`.
pub open spec fn approx(a: int, b: int) -> bool {
    iabs(a - b) < EPS_UNITS
}

/// Division that rounds toward zero, as the executable code computes it.
pub open spec fn tdiv(a: int, b: int) -> int {
    if (a >= 0) == (b >= 0) {
        iabs(a) / iabs(b)
    } else {
        -(iabs(a) / iabs(b))
    }
}

/// Fixed-point product: the exact product rescaled, rounded toward zero.
pub open spec fn fmul(a: int, b: int) -> int {
    tdiv(a * b, SCALE as int)
}

/// Fixed-point quotient: the rescaled dividend over the divisor, rounded
/// toward zero.
pub open spec fn fdiv(a: int, b: int) -> int {
    tdiv(a * (SCALE as int), b)
}

/// The integer square root, defined by recursion so that it is total.
pub open spec fn isqrt_rec(n: nat) -> nat
    decreases n,
{
    if n == 0 {
        0
    } else {
        let r = isqrt_rec((n - 1) as nat);
        if (r + 1) * (r + 1) <= n {
            r + 1
        } else {
            r
        }
    }
}

/// The integer square root of a nonnegative integer.
pub open spec fn isqrt(n: int) -> int {
    isqrt_rec(n as nat) as int
}

/// Fixed-point power with a natural exponent, multiplying from one.
pub open spec fn fpow(b: int, e: nat) -> int
    decreases e,
{
    if e == 0 {
        SCALE as int
    } else {
        fmul(fpow(b, (e - 1) as nat), b)
    }
}

/// The integer square root brackets its argument between consecutive squares.
pub proof fn lemma_isqrt(n: int)
    requires
        n >= 0,
    ensures
        isqrt(n) >= 0,
        isqrt(n) * isqrt(n) <= n,
        n < (isqrt(n) + 1) * (isqrt(n) + 1),
    decreases n,
{
    if n == 0 {
    } else {
        lemma_isqrt(n - 1);
        let r = isqrt(n - 1);
        assert(isqrt_rec(n as nat) == if (r + 1) * (r + 1) <= n {
            r + 1
        } else {
            r
        });
        if (r + 1) * (r + 1) <= n {
            assert(n - 1 < (r + 1) * (r + 1));
            assert(n < (r + 2) * (r + 2)) by (nonlinear_arith)
                requires
                    n <= (r + 1) * (r + 1),
                    r >= 0,
            ;
        } else {
            assert(r * r <= n - 1);
        }
    }
}

/// Any bracket between consecutive squares pins the integer square root.
pub proof fn lemma_isqrt_unique(n: int, r: int)
    requires
        n >= 0,
        r >= 0,
        r * r <= n,
        n < (r + 1) * (r + 1),
    ensures
        r == isqrt(n),
{
    lemma_isqrt(n);
    let s = isqrt(n);
    if r < s {
        assert((r + 1) * (r + 1) <= s * s) by (nonlinear_arith)
            requires
                0 <= r,
                r + 1 <= s,
        ;
        assert(false);
    }
    if s < r {
        assert((s + 1) * (s + 1) <= r * r) by (nonlinear_arith)
            requires
                0 <= s,
                s + 1 <= r,
        ;
        assert(false);
    }
}

/// Truncating division agrees with Euclidean division on magnitudes.
pub proof fn lemma_tdiv_abs(a: int, b: int)
    requires
        b != 0,
    ensures
        iabs(tdiv(a, b)) == iabs(a) / iabs(b),
        iabs(tdiv(a, b)) <= iabs(a),
{
    vstd::arithmetic::div_mod::lemma_div_nonincreasing(iabs(a), iabs(b));
    vstd::arithmetic::div_mod::lemma_div_pos_is_pos(iabs(a), iabs(b));
}

/// A magnitude bound on both factors gives a magnitude bound on the
/// fixed-point product.
pub proof fn lemma_fmul_bound(a: int, b: int, ca: int, cb: int)
    requires
        iabs(a) <= ca,
        iabs(b) <= cb,
    ensures
        iabs(fmul(a, b)) <= ca * cb / (SCALE as int),
        iabs(fmul(a, b)) <= iabs(a) * iabs(b),
{
    let s = SCALE as int;
    assert(iabs(a * b) == iabs(a) * iabs(b)) by (nonlinear_arith);
    assert(iabs(a) * iabs(b) <= ca * cb) by (nonlinear_arith)
        requires
            0 <= iabs(a) <= ca,
            0 <= iabs(b) <= cb,
    ;
    lemma_tdiv_abs(a * b, s);
    vstd::arithmetic::div_mod::lemma_div_is_ordered(iabs(a) * iabs(b), ca * cb, s);
    vstd::arithmetic::div_mod::lemma_div_nonincreasing(iabs(a) * iabs(b), s);
}

/// Exec absolute value of an `i128`, as a `u128`.
fn abs_u128(a: i128) -> (r: u128)
    requires
        a > i128::MIN,
    ensures
        r == iabs(a as int),
{
    if a < 0 {
        (-a) as u128
    } else {
        a as u128
    }
}

/// Truncating division on `i128`, matching `tdiv`.
pub fn tdiv_i128(a: i128, b: i128) -> (r: i128)
    requires
        b != 0,
        a > i128::MIN,
        b > i128::MIN,
    ensures
        r as int == tdiv(a as int, b as int),
{
    let na = abs_u128(a);
    let nb = abs_u128(b);
    let q = na / nb;
    proof {
        vstd::arithmetic::div_mod::lemma_div_nonincreasing(iabs(a as int), iabs(b as int));
        vstd::arithmetic::div_mod::lemma_div_pos_is_pos(iabs(a as int), iabs(b as int));
    }
    if (a < 0) != (b < 0) {
        -(q as i128)
    } else {
        q as i128
    }
}

/// Multiplying a truncated quotient back by the divisor comes within one
/// divisor of the dividend, and never overshoots it in magnitude.
pub proof fn lemma_tdiv_product_err(a: int, b: int)
    requires
        b != 0,
    ensures
        iabs(tdiv(a, b) * b - a) < iabs(b),
        iabs(tdiv(a, b) * b) <= iabs(a),
{
    let q = iabs(a) / iabs(b);
    vstd::arithmetic::div_mod::lemma_fundamental_div_mod(iabs(a), iabs(b));
    vstd::arithmetic::div_mod::lemma_mod_bound(iabs(a), iabs(b));
    vstd::arithmetic::div_mod::lemma_div_pos_is_pos(iabs(a), iabs(b));
    let rem = iabs(a) % iabs(b);
    assert(iabs(a) == iabs(b) * q + rem);
    if (a >= 0) == (b >= 0) {
        assert(tdiv(a, b) == q);
        if a >= 0 && b >= 0 {
            assert(q * b == iabs(b) * q) by (nonlinear_arith)
                requires
                    b >= 0,
            ;
        } else {
            assert(q * b == -(iabs(b) * q)) by (nonlinear_arith)
                requires
                    b < 0,
                    iabs(b) == -b,
            ;
        }
    } else {
        assert(tdiv(a, b) == -q);
        if b >= 0 {
            assert((-q) * b == -(iabs(b) * q)) by (nonlinear_arith)
                requires
                    b >= 0,
                    iabs(b) == b,
            ;
        } else {
            assert((-q) * b == iabs(b) * q) by (nonlinear_arith)
                requires
                    b < 0,
                    iabs(b) == -b,
            ;
        }
    }
}

/// Tolerance-based scalar comparison: true iff the scalars differ by less
/// than `EPS_UNITS` (the real 1e-5).
pub fn f_equal(a: i64, b: i64) -> (r: bool)
    ensures
        r == approx(a as int, b as int),
{
    let d: i128 = a as i128 - b as i128;
    -(EPS_UNITS as i128) < d && d < EPS_UNITS as i128
}

/// Fixed-point multiplication, rounded toward zero.
pub fn fp_mul(a: i64, b: i64) -> (r: i64)
    requires
        i64::MIN <= fmul(a as int, b as int) <= i64::MAX,
    ensures
        r as int == fmul(a as int, b as int),
{
    proof {
        assert((a as int) * (b as int) < i128::MAX && (a as int) * (b as int) > i128::MIN)
            by (nonlinear_arith)
            requires
                i64::MIN <= a <= i64::MAX,
                i64::MIN <= b <= i64::MAX,
        ;
    }
    let p: i128 = (a as i128) * (b as i128);
    let q = tdiv_i128(p, SCALE as i128);
    q as i64
}

/// Fixed-point division, rounded toward zero.
pub fn fp_div(a: i64, b: i64) -> (r: i64)
    requires
        b != 0,
        i64::MIN <= fdiv(a as int, b as int) <= i64::MAX,
    ensures
        r as int == fdiv(a as int, b as int),
{
    let p: i128 = (a as i128) * (SCALE as i128);
    let q = tdiv_i128(p, b as i128);
    q as i64
}

/// An upper bound on the argument gives an upper bound on its integer
/// square root.
pub proof fn lemma_isqrt_le(n: int, b: int)
    requires
        0 <= n,
        0 <= b,
        n < (b + 1) * (b + 1),
    ensures
        isqrt(n) <= b,
{
    lemma_isqrt(n);
    if isqrt(n) > b {
        assert((b + 1) * (b + 1) <= isqrt(n) * isqrt(n)) by (nonlinear_arith)
            requires
                0 <= b + 1 <= isqrt(n),
        ;
    }
}

/// The integer square root of a `u128` below 2^124, by binary search.
pub fn isqrt_u128(n: u128) -> (r: u64)
    requires
        (n as int) < 0x4000000000000000 * 0x4000000000000000,
    ensures
        r as int == isqrt(n as int),
{
    let mut lo: u128 = 0;
    let mut hi: u128 = 1u128 << 62;
    proof {
        assert((1u128 << 62) == 0x4000000000000000) by (bit_vector);
    }
    while hi - lo > 1
        invariant
            0 <= lo < hi <= 0x4000000000000000,
            (lo * lo) as int <= n as int,
            (n as int) < (hi * hi) as int,
        decreases hi - lo,
    {
        let mid = lo + (hi - lo) / 2;
        proof {
            assert(lo < mid < hi);
            assert(mid * mid <= 0x4000000000000000 * 0x4000000000000000) by (nonlinear_arith)
                requires
                    0 < mid <= 0x4000000000000000u128,
            ;
        }
        if mid * mid <= n {
            lo = mid;
        } else {
            hi = mid;
        }
    }
    proof {
        lemma_isqrt_unique(n as int, lo as int);
        lemma_isqrt_le(n as int, 0x3FFFFFFFFFFFFFFF);
    }
    lo as u64
}

/// Truncating division is monotone in the dividend, for a positive divisor.
pub proof fn lemma_tdiv_monotone(a1: int, a2: int, b: int)
    requires
        a1 <= a2,
        b > 0,
    ensures
        tdiv(a1, b) <= tdiv(a2, b),
{
    vstd::arithmetic::div_mod::lemma_div_pos_is_pos(iabs(a1), b);
    vstd::arithmetic::div_mod::lemma_div_pos_is_pos(iabs(a2), b);
    if a1 >= 0 {
        vstd::arithmetic::div_mod::lemma_div_is_ordered(a1, a2, b);
    } else if a2 < 0 {
        vstd::arithmetic::div_mod::lemma_div_is_ordered(-a2, -a1, b);
    }
}

/// A nonnegative dividend gives a nonnegative truncated quotient.
pub proof fn lemma_tdiv_nonneg(a: int, b: int)
    requires
        a >= 0,
        b > 0,
    ensures
        tdiv(a, b) >= 0,
{
    vstd::arithmetic::div_mod::lemma_div_pos_is_pos(a, b);
}

/// The fixed-point product of scalars no larger than one stays no larger
/// than one.
pub proof fn lemma_fmul_unit(a: int, b: int)
    requires
        iabs(b) <= SCALE as int,
    ensures
        iabs(fmul(a, b)) <= iabs(a),
{
    let s = SCALE as int;
    assert(iabs(a * b) == iabs(a) * iabs(b)) by (nonlinear_arith);
    assert(iabs(a) * iabs(b) <= iabs(a) * s) by (nonlinear_arith)
        requires
            0 <= iabs(b) <= s,
            0 <= iabs(a),
    ;
    lemma_tdiv_abs(a * b, s);
    vstd::arithmetic::div_mod::lemma_div_is_ordered(iabs(a) * iabs(b), iabs(a) * s, s);
    vstd::arithmetic::div_mod::lemma_div_by_multiple(iabs(a), s);
}

/// Fixed-point power with a natural exponent; the base must lie within
/// [-1, 1] so that no intermediate value can leave that range.
pub fn fp_pow(b: i64, e: u32) -> (r: i64)
    requires
        iabs(b as int) <= SCALE as int,
    ensures
        r as int == fpow(b as int, e as nat),
        iabs(r as int) <= SCALE as int,
{
    let mut acc: i64 = SCALE;
    let mut i: u32 = 0;
    while i < e
        invariant
            0 <= i <= e,
            acc as int == fpow(b as int, i as nat),
            iabs(acc as int) <= SCALE as int,
            iabs(b as int) <= SCALE as int,
        decreases e - i,
    {
        proof {
            lemma_fmul_unit(acc as int, b as int);
        }
        acc = fp_mul(acc, b);
        i = i + 1;
    }
    acc
}

} // verus!
