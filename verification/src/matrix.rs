//! Dense square matrices (2x2 to 4x4) of fixed-point scalars: product,
//! transpose, determinant by cofactor expansion, inverse, and the canonical
//! transform constructors.

use vstd::prelude::*;
use crate::common::{
    approx, fdiv, fmul, f_equal, fp_mul, iabs, lemma_fmul_bound, lemma_tdiv_abs,
    lemma_tdiv_product_err, tdiv, tdiv_i128, TraceError, SCALE,
};
use crate::tuple::{coords_le, in_i64, Kind, Tuple};

verus! {

/// Matrix entry magnitude accepted by the determinant and the inverse
/// (a fixed-point range limit; the real 400).
pub const ENTRY_LIMIT: i64 = 4_000_000_000;

/// Coordinate magnitude the kernel keeps values within between operations
/// (a fixed-point range limit; the real 1e5).
pub const COORD_LIMIT: i64 = 1_000_000_000_000;

/// A dense matrix: a vector of rows of fixed-point scalars.
#[derive(Debug)]
pub struct Matrix {
    pub value: Vec<Vec<i64>>,
}

/// The mathematical view of a row vector.
pub open spec fn row_view(r: Vec<i64>) -> Seq<int> {
    r@.map(|j: int, x: i64| x as int)
}

/// The mathematical view of a grid of rows.
pub open spec fn grid_of(rows: Seq<Vec<i64>>) -> Seq<Seq<int>> {
    rows.map(|i: int, r: Vec<i64>| row_view(r))
}

impl View for Matrix {
    type V = Seq<Seq<int>>;

    open spec fn view(&self) -> Seq<Seq<int>> {
        grid_of(self.value@)
    }
}

/// A well-formed grid: square, with dimension two to four.
pub open spec fn wf_grid(g: Seq<Seq<int>>) -> bool {
    2 <= g.len() <= 4 && forall|i: int| 0 <= i < g.len() ==> (#[trigger] g[i]).len() == g.len()
}

/// Every entry of the grid fits within magnitude `m`.
pub open spec fn bounded_grid(g: Seq<Seq<int>>, m: int) -> bool {
    forall|i: int, j: int|
        0 <= i < g.len() && 0 <= j < g[i].len() ==> iabs(#[trigger] g[i][j]) <= m
}

/// Tolerance-based grid equality: same shape, entries within the tolerance.
pub open spec fn grid_approx(a: Seq<Seq<int>>, b: Seq<Seq<int>>) -> bool {
    a.len() == b.len() && (forall|i: int|
        0 <= i < a.len() ==> (#[trigger] a[i]).len() == b[i].len()) && (forall|i: int, j: int|
        0 <= i < a.len() && 0 <= j < a[i].len() ==> approx(#[trigger] a[i][j], b[i][j]))
}

/// The sequence with the element at `k` removed.
pub open spec fn remove_idx<A>(s: Seq<A>, k: int) -> Seq<A> {
    s.subrange(0, k) + s.subrange(k + 1, s.len() as int)
}

/// The grid with one row and one column removed.
pub open spec fn sub_grid(g: Seq<Seq<int>>, row: int, col: int) -> Seq<Seq<int>> {
    remove_idx(g, row).map(|i: int, r: Seq<int>| remove_idx(r, col))
}

/// A grid square enough to take a determinant of: the 1x1 case only arises
/// as the minor of a 2x2 grid.
pub open spec fn det_wf(g: Seq<Seq<int>>) -> bool {
    1 <= g.len() <= 4 && forall|i: int| 0 <= i < g.len() ==> (#[trigger] g[i]).len() == g.len()
}

/// The determinant of a square grid: the 1x1 and 2x2 base cases, or
/// cofactor expansion along row zero.
pub open spec fn spec_det(g: Seq<Seq<int>>) -> int
    decreases g.len(), g.len() + 1int,
{
    if g.len() == 1 {
        g[0][0]
    } else if g.len() == 2 {
        fmul(g[0][0], g[1][1]) - fmul(g[0][1], g[1][0])
    } else if 3 <= g.len() <= 4 {
        det_sum(g, 0)
    } else {
        0
    }
}

/// The cofactor expansion terms of row zero, from column `i` on.
pub open spec fn det_sum(g: Seq<Seq<int>>, i: int) -> int
    decreases g.len(), g.len() - i,
{
    if 0 <= i < g.len() {
        fmul(g[0][i], spec_cof(g, 0, i)) + det_sum(g, i + 1)
    } else {
        0
    }
}

/// The cofactor: the minor, with the checkerboard sign.
pub open spec fn spec_cof(g: Seq<Seq<int>>, row: int, col: int) -> int
    decreases g.len(), 0int,
{
    if 0 <= row < g.len() && 0 <= col < g.len() {
        if (row + col) % 2 == 0 {
            spec_det(sub_grid(g, row, col))
        } else {
            -spec_det(sub_grid(g, row, col))
        }
    } else {
        0
    }
}

/// The identity grid of dimension `n`, scaled to fixed-point units.
pub open spec fn id_grid(n: int) -> Seq<Seq<int>> {
    Seq::new(n as nat, |i: int| Seq::new(n as nat, |j: int| if i == j {
        SCALE as int
    } else {
        0
    }))
}

/// One entry of a 4x4 matrix product: four exact products, one rounding.
pub open spec fn mat_mul_entry(a: Seq<Seq<int>>, b: Seq<Seq<int>>, i: int, j: int) -> int {
    tdiv(a[i][0] * b[0][j] + a[i][1] * b[1][j] + a[i][2] * b[2][j] + a[i][3] * b[3][j], SCALE as int)
}

/// The homogeneous coordinate of a tuple, in units: one for a point, zero
/// for a vector.
pub open spec fn w_units(k: Kind) -> int {
    if k == Kind::Point {
        SCALE as int
    } else {
        0
    }
}

/// One coordinate of a matrix-tuple product.
pub open spec fn mat_tup_entry(g: Seq<Seq<int>>, t: Tuple, i: int) -> int {
    tdiv(
        g[i][0] * t.x + g[i][1] * t.y + g[i][2] * t.z + g[i][3] * w_units(t.kind),
        SCALE as int,
    )
}

/// The matrix-tuple product: the tuple's kind is kept.
pub open spec fn spec_mat_tup(g: Seq<Seq<int>>, t: Tuple) -> Tuple {
    Tuple {
        x: mat_tup_entry(g, t, 0) as i64,
        y: mat_tup_entry(g, t, 1) as i64,
        z: mat_tup_entry(g, t, 2) as i64,
        kind: t.kind,
    }
}

/// The transposed grid.
pub open spec fn transpose_grid(g: Seq<Seq<int>>) -> Seq<Seq<int>> {
    Seq::new(g.len(), |i: int| Seq::new(g.len(), |j: int| g[j][i]))
}

/// How a grid view indexes into its rows.
pub proof fn lemma_grid_index(rows: Seq<Vec<i64>>)
    ensures
        grid_of(rows).len() == rows.len(),
        forall|i: int|
            0 <= i < rows.len() ==> (#[trigger] grid_of(rows)[i]).len() == rows[i]@.len(),
        forall|i: int, j: int|
            0 <= i < rows.len() && 0 <= j < rows[i]@.len() ==> #[trigger] grid_of(rows)[i][j]
                == rows[i]@[j] as int,
{
}

impl Matrix {
    /// Builds a matrix from rows, validating that they form a square grid
    /// of dimension two to four; anything else is a `DimensionMismatch`.
    pub fn new(value: Vec<Vec<i64>>) -> (r: Result<Matrix, TraceError>)
        ensures
            wf_grid(grid_of(value@)) ==> r == Ok::<Matrix, TraceError>(Matrix { value }),
            !wf_grid(grid_of(value@)) ==> r == Err::<Matrix, TraceError>(
                TraceError::DimensionMismatch,
            ),
            r is Ok ==> r.unwrap()@ == grid_of(value@) && wf_grid(r.unwrap()@),
    {
        proof {
            lemma_grid_index(value@);
        }
        let n = value.len();
        if n < 2 || n > 4 {
            return Err(TraceError::DimensionMismatch);
        }
        for i in 0..n
            invariant
                n == value@.len(),
                2 <= n <= 4,
                forall|k: int| 0 <= k < i ==> (#[trigger] value@[k])@.len() == n,
        {
            if value[i].len() != n {
                proof {
                    lemma_grid_index(value@);
                    assert(grid_of(value@)[i as int].len() != grid_of(value@).len());
                }
                return Err(TraceError::DimensionMismatch);
            }
        }
        proof {
            assert(forall|k: int|
                0 <= k < value@.len() ==> (#[trigger] grid_of(value@)[k]).len() == value@[k]@.len());
        }
        Ok(Matrix { value })
    }

    /// The 4x4 identity matrix.
    pub fn identity() -> (r: Matrix)
        ensures
            r@ == id_grid(4),
            wf_grid(r@),
            bounded_grid(r@, ENTRY_LIMIT as int),
    {
        let mut rows: Vec<Vec<i64>> = Vec::new();
        rows.push(row4(SCALE, 0, 0, 0));
        rows.push(row4(0, SCALE, 0, 0));
        rows.push(row4(0, 0, SCALE, 0));
        rows.push(row4(0, 0, 0, SCALE));
        let m = Matrix { value: rows };
        proof {
            assert(m@ =~~= id_grid(4));
        }
        m
    }

    /// The transpose: entry `[i][j]` of the result is entry `[j][i]` of the
    /// argument.
    pub fn transpose(self) -> (r: Matrix)
        requires
            wf_grid(self@),
        ensures
            wf_grid(r@),
            r@.len() == self@.len(),
            r@ == transpose_grid(self@),
            forall|i: int, j: int|
                0 <= i < r@.len() && 0 <= j < r@.len() ==> #[trigger] r@[i][j] == self@[j][i],
            bounded_grid(self@, ENTRY_LIMIT as int) ==> bounded_grid(r@, ENTRY_LIMIT as int),
    {
        let n = self.value.len();
        let mut rows: Vec<Vec<i64>> = Vec::new();
        for i in 0..n
            invariant
                n == self.value@.len(),
                wf_grid(self@),
                rows@.len() == i,
                forall|a: int| 0 <= a < i ==> (#[trigger] rows@[a])@.len() == n,
                forall|a: int, b: int|
                    0 <= a < i && 0 <= b < n ==> #[trigger] rows@[a]@[b] == self.value@[b]@[a],
        {
            let mut row: Vec<i64> = Vec::new();
            for j in 0..n
                invariant
                    n == self.value@.len(),
                    wf_grid(self@),
                    i < n,
                    row@.len() == j,
                    forall|b: int| 0 <= b < j ==> row@[b] == self.value@[b]@[i as int],
            {
                proof {
                    assert(self@[j as int].len() == n);
                }
                row.push(self.value[j][i]);
            }
            rows.push(row);
        }
        let m = Matrix { value: rows };
        proof {
            assert(forall|i: int, j: int|
                0 <= i < n && 0 <= j < n ==> #[trigger] m@[i][j] == self@[j][i]);
            assert(m@ =~~= transpose_grid(self@));
            if bounded_grid(self@, ENTRY_LIMIT as int) {
                assert forall|i: int, j: int|
                    0 <= i < m@.len() && 0 <= j < m@[i].len() implies iabs(#[trigger] m@[i][j])
                    <= ENTRY_LIMIT as int by {
                    assert(m@[i][j] == self@[j][i]);
                }
            }
        }
        m
    }

    /// The 4x4 matrix product; other shapes are a `DimensionMismatch`.
    /// Each entry accumulates its four products exactly and rounds once.
    pub fn mul(&self, other: &Matrix) -> (r: Result<Matrix, TraceError>)
        requires
            bounded_grid(self@, ENTRY_LIMIT as int),
            bounded_grid(other@, ENTRY_LIMIT as int),
        ensures
            wf_grid(self@) && wf_grid(other@) && self@.len() == 4 && other@.len() == 4 ==> r is Ok
                && {
                let m = r.unwrap();
                &&& wf_grid(m@)
                &&& m@.len() == 4
                &&& forall|i: int, j: int|
                    0 <= i < 4 && 0 <= j < 4 ==> #[trigger] m@[i][j] == mat_mul_entry(
                        self@,
                        other@,
                        i,
                        j,
                    )
            },
            !(wf_grid(self@) && wf_grid(other@) && self@.len() == 4 && other@.len() == 4) ==> r
                == Err::<Matrix, TraceError>(TraceError::DimensionMismatch),
    {
        if !(is_wf_4(self) && is_wf_4(other)) {
            return Err(TraceError::DimensionMismatch);
        }
        let mut rows: Vec<Vec<i64>> = Vec::new();
        for i in 0..4usize
            invariant
                wf_grid(self@),
                wf_grid(other@),
                self@.len() == 4,
                other@.len() == 4,
                bounded_grid(self@, ENTRY_LIMIT as int),
                bounded_grid(other@, ENTRY_LIMIT as int),
                rows@.len() == i,
                forall|a: int| 0 <= a < i ==> (#[trigger] rows@[a])@.len() == 4,
                forall|a: int, b: int|
                    0 <= a < i && 0 <= b < 4 ==> #[trigger] rows@[a]@[b] == mat_mul_entry(
                        self@,
                        other@,
                        a,
                        b,
                    ),
        {
            let mut row: Vec<i64> = Vec::new();
            for j in 0..4usize
                invariant
                    wf_grid(self@),
                    wf_grid(other@),
                    self@.len() == 4,
                    other@.len() == 4,
                    bounded_grid(self@, ENTRY_LIMIT as int),
                    bounded_grid(other@, ENTRY_LIMIT as int),
                    i < 4,
                    row@.len() == j,
                    forall|b: int|
                        0 <= b < j ==> row@[b] == mat_mul_entry(self@, other@, i as int, b),
            {
                proof {
                    lemma_mat_mul_entry_fits(self@, other@, i as int, j as int);
                }
                let s: i128 = (self.value[i][0] as i128) * (other.value[0][j] as i128) + (
                self.value[i][1] as i128) * (other.value[1][j] as i128) + (self.value[i][2] as i128)
                    * (other.value[2][j] as i128) + (self.value[i][3] as i128) * (
                other.value[3][j] as i128);
                let q = tdiv_i128(s, SCALE as i128);
                row.push(q as i64);
            }
            rows.push(row);
        }
        let m = Matrix { value: rows };
        Ok(m)
    }

    /// The product of a 4x4 matrix and a point or vector, treating the tuple
    /// as a homogeneous column; the result keeps the tuple's kind. A color
    /// is a `KindMismatch`, another shape a `DimensionMismatch`.
    pub fn mul_tuple(&self, other: &Tuple) -> (r: Result<Tuple, TraceError>)
        requires
            bounded_grid(self@, COORD_LIMIT as int),
            coords_le(*other, COORD_LIMIT as int),
        ensures
            other.kind == Kind::Color ==> r == Err::<Tuple, TraceError>(TraceError::KindMismatch),
            other.kind != Kind::Color && !(wf_grid(self@) && self@.len() == 4) ==> r == Err::<
                Tuple,
                TraceError,
            >(TraceError::DimensionMismatch),
            other.kind != Kind::Color && wf_grid(self@) && self@.len() == 4 ==> r == Ok::<
                Tuple,
                TraceError,
            >(spec_mat_tup(self@, *other)),
    {
        let w: i64 = match other.kind {
            Kind::Point => SCALE,
            Kind::Vector => 0,
            Kind::Color => {
                return Err(TraceError::KindMismatch);
            },
        };
        if !is_wf_4(self) {
            return Err(TraceError::DimensionMismatch);
        }
        proof {
            lemma_mat_tup_entry_fits(self@, *other, 0);
            lemma_mat_tup_entry_fits(self@, *other, 1);
            lemma_mat_tup_entry_fits(self@, *other, 2);
        }
        let x = self.mat_tup_row(0, other, w);
        let y = self.mat_tup_row(1, other, w);
        let z = self.mat_tup_row(2, other, w);
        Ok(Tuple { x, y, z, kind: other.kind })
    }

    /// One row of the matrix-tuple product.
    fn mat_tup_row(&self, i: usize, other: &Tuple, w: i64) -> (r: i64)
        requires
            wf_grid(self@),
            self@.len() == 4,
            i < 4,
            w as int == w_units(other.kind),
            bounded_grid(self@, COORD_LIMIT as int),
            coords_le(*other, COORD_LIMIT as int),
            in_i64(mat_tup_entry(self@, *other, i as int)),
        ensures
            r as int == mat_tup_entry(self@, *other, i as int),
    {
        proof {
            lemma_mat_tup_entry_fits(self@, *other, i as int);
            assert(self@[i as int].len() == 4);
        }
        let s: i128 = (self.value[i][0] as i128) * (other.x as i128) + (self.value[i][1] as i128)
            * (other.y as i128) + (self.value[i][2] as i128) * (other.z as i128) + (
        self.value[i][3] as i128) * (w as i128);
        let q = tdiv_i128(s, SCALE as i128);
        q as i64
    }
}

/// Builds a row of four entries.
fn row4(a: i64, b: i64, c: i64, d: i64) -> (r: Vec<i64>)
    ensures
        r@ =~= seq![a, b, c, d],
        row_view(r) =~= seq![a as int, b as int, c as int, d as int],
{
    let mut v: Vec<i64> = Vec::new();
    v.push(a);
    v.push(b);
    v.push(c);
    v.push(d);
    v
}

/// Checks that the matrix is a well-formed 4x4 grid.
fn is_wf_4(m: &Matrix) -> (r: bool)
    ensures
        r == (wf_grid(m@) && m@.len() == 4),
{
    proof {
        lemma_grid_index(m.value@);
    }
    if m.value.len() != 4 {
        return false;
    }
    for i in 0..4usize
        invariant
            m.value@.len() == 4,
            forall|k: int| 0 <= k < i ==> (#[trigger] m@[k]).len() == 4,
    {
        if m.value[i].len() != 4 {
            proof {
                lemma_grid_index(m.value@);
                assert(m@[i as int].len() != 4);
            }
            return false;
        }
    }
    true
}

proof fn lemma_mat_mul_entry_fits(a: Seq<Seq<int>>, b: Seq<Seq<int>>, i: int, j: int)
    requires
        wf_grid(a),
        wf_grid(b),
        a.len() == 4,
        b.len() == 4,
        bounded_grid(a, ENTRY_LIMIT as int),
        bounded_grid(b, ENTRY_LIMIT as int),
        0 <= i < 4,
        0 <= j < 4,
    ensures
        iabs(a[i][0] * b[0][j]) <= (ENTRY_LIMIT as int) * (ENTRY_LIMIT as int),
        iabs(a[i][1] * b[1][j]) <= (ENTRY_LIMIT as int) * (ENTRY_LIMIT as int),
        iabs(a[i][2] * b[2][j]) <= (ENTRY_LIMIT as int) * (ENTRY_LIMIT as int),
        iabs(a[i][3] * b[3][j]) <= (ENTRY_LIMIT as int) * (ENTRY_LIMIT as int),
        in_i64(mat_mul_entry(a, b, i, j)),
{
    let l = ENTRY_LIMIT as int;
    assert forall|k: int| 0 <= k < 4 implies iabs(a[i][k] * b[k][j]) <= l * l by {
        assert(iabs(a[i][k]) <= l);
        assert(iabs(b[k][j]) <= l);
        assert(iabs(a[i][k] * b[k][j]) == iabs(a[i][k]) * iabs(b[k][j]) && iabs(a[i][k]) * iabs(
            b[k][j],
        ) <= l * l) by (nonlinear_arith)
            requires
                0 <= iabs(a[i][k]) <= l,
                0 <= iabs(b[k][j]) <= l,
        ;
    }
    let s = a[i][0] * b[0][j] + a[i][1] * b[1][j] + a[i][2] * b[2][j] + a[i][3] * b[3][j];
    lemma_tdiv_abs(s, SCALE as int);
    vstd::arithmetic::div_mod::lemma_div_is_ordered(iabs(s), 4 * l * l, SCALE as int);
}

proof fn lemma_mat_tup_entry_fits(g: Seq<Seq<int>>, t: Tuple, i: int)
    requires
        wf_grid(g),
        g.len() == 4,
        bounded_grid(g, COORD_LIMIT as int),
        coords_le(t, COORD_LIMIT as int),
        0 <= i < 4,
    ensures
        iabs(g[i][0] * t.x) <= (COORD_LIMIT as int) * (COORD_LIMIT as int),
        iabs(g[i][1] * t.y) <= (COORD_LIMIT as int) * (COORD_LIMIT as int),
        iabs(g[i][2] * t.z) <= (COORD_LIMIT as int) * (COORD_LIMIT as int),
        iabs(g[i][3] * w_units(t.kind)) <= (COORD_LIMIT as int) * (COORD_LIMIT as int),
        in_i64(mat_tup_entry(g, t, i)),
{
    let l = COORD_LIMIT as int;
    assert(iabs(w_units(t.kind)) <= l);
    assert(iabs(g[i][0] * t.x) == iabs(g[i][0]) * iabs(t.x as int) && iabs(g[i][0]) * iabs(
        t.x as int,
    ) <= l * l) by (nonlinear_arith)
        requires
            0 <= iabs(g[i][0]) <= l,
            0 <= iabs(t.x as int) <= l,
    ;
    assert(iabs(g[i][1] * t.y) == iabs(g[i][1]) * iabs(t.y as int) && iabs(g[i][1]) * iabs(
        t.y as int,
    ) <= l * l) by (nonlinear_arith)
        requires
            0 <= iabs(g[i][1]) <= l,
            0 <= iabs(t.y as int) <= l,
    ;
    assert(iabs(g[i][2] * t.z) == iabs(g[i][2]) * iabs(t.z as int) && iabs(g[i][2]) * iabs(
        t.z as int,
    ) <= l * l) by (nonlinear_arith)
        requires
            0 <= iabs(g[i][2]) <= l,
            0 <= iabs(t.z as int) <= l,
    ;
    assert(iabs(g[i][3] * w_units(t.kind)) == iabs(g[i][3]) * iabs(w_units(t.kind)) && iabs(g[i][3])
        * iabs(w_units(t.kind)) <= l * l) by (nonlinear_arith)
        requires
            0 <= iabs(g[i][3]) <= l,
            0 <= iabs(w_units(t.kind)) <= l,
    ;
    let s = g[i][0] * t.x + g[i][1] * t.y + g[i][2] * t.z + g[i][3] * w_units(t.kind);
    lemma_tdiv_abs(s, SCALE as int);
    vstd::arithmetic::div_mod::lemma_div_is_ordered(iabs(s), 4 * l * l, SCALE as int);
}

/// Magnitude cap on the determinant of a bounded grid of dimension `n`.
pub open spec fn det_cap(n: int) -> int {
    if n == 1 {
        ENTRY_LIMIT as int
    } else if n == 2 {
        3_200_000_000_000
    } else if n == 3 {
        3_840_000_000_000_000
    } else {
        6_144_000_000_000_000_000
    }
}

/// Magnitude cap on one cofactor-expansion term of a bounded grid.
pub open spec fn term_cap(n: int) -> int {
    if n == 3 {
        1_280_000_000_000_000
    } else {
        1_536_000_000_000_000_000
    }
}

/// The inverse grid by the adjugate: entry `[r][c]` is
/// `cofactor(c, r) / det` (note the transposed index assignment).
pub open spec fn inv_grid(g: Seq<Seq<int>>) -> Seq<Seq<int>> {
    Seq::new(g.len(), |r: int| Seq::new(g.len(), |c: int| fdiv(spec_cof(g, c, r), spec_det(g))))
}

/// Every inverse entry of the grid fits the kernel's coordinate range.
pub open spec fn inv_in_range(g: Seq<Seq<int>>) -> bool {
    forall|i: int, j: int|
        0 <= i < g.len() && 0 <= j < g.len() ==> iabs(
            #[trigger] fdiv(spec_cof(g, i, j), spec_det(g)),
        ) <= COORD_LIMIT as int
}

/// Shape and entries of a grid with one row and one column removed.
pub proof fn lemma_sub_grid_index(g: Seq<Seq<int>>, row: int, col: int)
    requires
        det_wf(g) || wf_grid(g),
        0 <= row < g.len(),
        0 <= col < g.len(),
    ensures
        sub_grid(g, row, col).len() == g.len() - 1,
        forall|i: int|
            0 <= i < g.len() - 1 ==> (#[trigger] sub_grid(g, row, col)[i]).len() == g.len() - 1,
        forall|i: int, j: int|
            0 <= i < g.len() - 1 && 0 <= j < g.len() - 1 ==> #[trigger] sub_grid(g, row, col)[i][j]
                == g[if i < row {
                i
            } else {
                i + 1
            }][if j < col {
                j
            } else {
                j + 1
            }],
        g.len() >= 2 ==> det_wf(sub_grid(g, row, col)),
{
    let s = sub_grid(g, row, col);
    assert forall|i: int| 0 <= i < g.len() - 1 implies (#[trigger] s[i]).len() == g.len() - 1 by {
        assert(remove_idx(g, row)[i] == if i < row {
            g[i]
        } else {
            g[i + 1]
        });
    }
    assert forall|i: int, j: int|
        0 <= i < g.len() - 1 && 0 <= j < g.len() - 1 implies #[trigger] s[i][j] == g[if i < row {
        i
    } else {
        i + 1
    }][if j < col {
        j
    } else {
        j + 1
    }] by {
        let gi = if i < row {
            i
        } else {
            i + 1
        };
        assert(remove_idx(g, row)[i] == g[gi]);
        assert(s[i] == remove_idx(g[gi], col));
        assert(remove_idx(g[gi], col)[j] == if j < col {
            g[gi][j]
        } else {
            g[gi][j + 1]
        });
    }
}

/// A bounded grid keeps its bound after removing a row and a column.
pub proof fn lemma_sub_grid_bounded(g: Seq<Seq<int>>, row: int, col: int, m: int)
    requires
        det_wf(g) || wf_grid(g),
        0 <= row < g.len(),
        0 <= col < g.len(),
        bounded_grid(g, m),
    ensures
        bounded_grid(sub_grid(g, row, col), m),
{
    lemma_sub_grid_index(g, row, col);
    let s = sub_grid(g, row, col);
    assert forall|i: int, j: int|
        0 <= i < s.len() && 0 <= j < s[i].len() implies iabs(#[trigger] s[i][j]) <= m by {
        assert(s[i][j] == g[if i < row {
            i
        } else {
            i + 1
        }][if j < col {
            j
        } else {
            j + 1
        }]);
    }
}

/// The determinant of a bounded grid is capped by `det_cap`.
pub proof fn lemma_det_bound(g: Seq<Seq<int>>)
    requires
        det_wf(g),
        bounded_grid(g, ENTRY_LIMIT as int),
    ensures
        iabs(spec_det(g)) <= det_cap(g.len() as int),
    decreases g.len(), g.len() + 1int,
{
    let e = ENTRY_LIMIT as int;
    if g.len() == 1 {
        assert(iabs(g[0][0]) <= e);
    } else if g.len() == 2 {
        lemma_fmul_bound(g[0][0], g[1][1], e, e);
        lemma_fmul_bound(g[0][1], g[1][0], e, e);
    } else {
        lemma_det_sum_bound(g, 0);
    }
}

/// The tail of the cofactor expansion is capped per remaining term.
pub proof fn lemma_det_sum_bound(g: Seq<Seq<int>>, i: int)
    requires
        det_wf(g),
        bounded_grid(g, ENTRY_LIMIT as int),
        3 <= g.len() <= 4,
        0 <= i <= g.len(),
    ensures
        iabs(det_sum(g, i)) <= (g.len() - i) * term_cap(g.len() as int),
    decreases g.len(), g.len() - i,
{
    if i == g.len() {
    } else {
        lemma_cof_bound(g, 0, i);
        lemma_fmul_bound(g[0][i], spec_cof(g, 0, i), ENTRY_LIMIT as int, det_cap(g.len() - 1));
        lemma_det_sum_bound(g, i + 1);
        if g.len() == 3 {
            assert((ENTRY_LIMIT as int) * det_cap(2) / (SCALE as int) == term_cap(3));
        } else {
            assert((ENTRY_LIMIT as int) * det_cap(3) / (SCALE as int) == term_cap(4));
        }
    }
}

/// A cofactor of a bounded grid is capped by the smaller grid's cap.
pub proof fn lemma_cof_bound(g: Seq<Seq<int>>, row: int, col: int)
    requires
        det_wf(g),
        bounded_grid(g, ENTRY_LIMIT as int),
        2 <= g.len() <= 4,
        0 <= row < g.len(),
        0 <= col < g.len(),
    ensures
        iabs(spec_cof(g, row, col)) <= det_cap(g.len() - 1),
    decreases g.len(), 0int,
{
    lemma_sub_grid_index(g, row, col);
    lemma_sub_grid_bounded(g, row, col, ENTRY_LIMIT as int);
    lemma_det_bound(sub_grid(g, row, col));
}

/// A copy of the matrix with the given row and column removed.
pub fn submatrix(matrix: &Matrix, row: usize, col: usize) -> (r: Matrix)
    requires
        det_wf(matrix@),
        matrix@.len() >= 2,
        row < matrix@.len(),
        col < matrix@.len(),
    ensures
        r@ == sub_grid(matrix@, row as int, col as int),
        det_wf(r@) || r@.len() == 1,
        r@.len() == matrix@.len() - 1,
{
    let n = matrix.value.len();
    let mut rows: Vec<Vec<i64>> = Vec::new();
    for i in 0..n
        invariant
            n == matrix.value@.len(),
            det_wf(matrix@),
            row < n,
            col < n,
            rows@.len() == if i <= row {
                i as int
            } else {
                i - 1
            },
            forall|a: int| 0 <= a < rows@.len() ==> (#[trigger] rows@[a])@.len() == n - 1,
            forall|a: int, b: int|
                0 <= a < rows@.len() && 0 <= b < n - 1 ==> #[trigger] rows@[a]@[b]
                    == matrix.value@[if a < row {
                    a
                } else {
                    a + 1
                }]@[if b < col {
                    b
                } else {
                    b + 1
                }],
    {
        if i != row {
            let mut r2: Vec<i64> = Vec::new();
            for j in 0..n
                invariant
                    n == matrix.value@.len(),
                    det_wf(matrix@),
                    row < n,
                    col < n,
                    i < n,
                    i != row,
                    r2@.len() == if j <= col {
                        j as int
                    } else {
                        j - 1
                    },
                    forall|b: int|
                        0 <= b < r2@.len() ==> r2@[b] == matrix.value@[i as int]@[if b < col {
                            b
                        } else {
                            b + 1
                        }],
            {
                proof {
                    assert(matrix@[i as int].len() == n);
                }
                if j != col {
                    r2.push(matrix.value[i][j]);
                }
            }
            rows.push(r2);
        }
    }
    let m = Matrix { value: rows };
    proof {
        lemma_sub_grid_index(matrix@, row as int, col as int);
        lemma_grid_index(rows@);
        assert(m@ =~~= sub_grid(matrix@, row as int, col as int));
    }
    m
}

/// The determinant, by cofactor expansion along row zero.
pub fn determinant(matrix: &Matrix) -> (r: i64)
    requires
        det_wf(matrix@),
        bounded_grid(matrix@, ENTRY_LIMIT as int),
    ensures
        r as int == spec_det(matrix@),
    decreases matrix@.len(), 3int,
{
    let n = matrix.value.len();
    proof {
        assert(matrix@[0].len() == n);
    }
    if n == 1 {
        matrix.value[0][0]
    } else if n == 2 {
        proof {
            let e = ENTRY_LIMIT as int;
            lemma_fmul_bound(matrix@[0][0], matrix@[1][1], e, e);
            lemma_fmul_bound(matrix@[0][1], matrix@[1][0], e, e);
        }
        fp_mul(matrix.value[0][0], matrix.value[1][1]) - fp_mul(
            matrix.value[0][1],
            matrix.value[1][0],
        )
    } else {
        let mut det: i64 = 0;
        let ghost g = matrix@;
        for i in 0..n
            invariant
                n == matrix.value@.len(),
                g == matrix@,
                det_wf(g),
                bounded_grid(g, ENTRY_LIMIT as int),
                3 <= n <= 4,
                det_sum(g, 0) == det + det_sum(g, i as int),
                iabs(det as int) <= i * term_cap(n as int),
        {
            proof {
                assert(g[0].len() == n);
                lemma_cof_bound(g, 0, i as int);
                lemma_fmul_bound(g[0][i as int], spec_cof(g, 0, i as int), ENTRY_LIMIT as int, det_cap(n - 1));
                lemma_det_sum_bound(g, i as int);
                lemma_det_sum_bound(g, i + 1);
                if n == 3 {
                    assert((ENTRY_LIMIT as int) * det_cap(2) / (SCALE as int) == term_cap(3));
                } else {
                    assert((ENTRY_LIMIT as int) * det_cap(3) / (SCALE as int) == term_cap(4));
                }
            }
            let c = cofactor(matrix, 0, i);
            let term = fp_mul(matrix.value[0][i], c);
            det = det + term;
        }
        det
    }
}

/// The minor: the determinant of the submatrix.
pub fn minor(matrix: &Matrix, row: usize, col: usize) -> (r: i64)
    requires
        det_wf(matrix@),
        bounded_grid(matrix@, ENTRY_LIMIT as int),
        2 <= matrix@.len(),
        row < matrix@.len(),
        col < matrix@.len(),
    ensures
        r as int == spec_det(sub_grid(matrix@, row as int, col as int)),
    decreases matrix@.len(), 1int,
{
    let sub = submatrix(matrix, row, col);
    proof {
        lemma_sub_grid_index(matrix@, row as int, col as int);
        lemma_sub_grid_bounded(matrix@, row as int, col as int, ENTRY_LIMIT as int);
        if sub@.len() == 1 {
            assert(det_wf(sub@));
        }
    }
    determinant(&sub)
}

/// The cofactor: the minor with the checkerboard sign.
pub fn cofactor(matrix: &Matrix, row: usize, col: usize) -> (r: i64)
    requires
        det_wf(matrix@),
        bounded_grid(matrix@, ENTRY_LIMIT as int),
        2 <= matrix@.len(),
        row < matrix@.len(),
        col < matrix@.len(),
    ensures
        r as int == spec_cof(matrix@, row as int, col as int),
        iabs(r as int) <= det_cap(matrix@.len() - 1),
    decreases matrix@.len(), 2int,
{
    proof {
        lemma_cof_bound(matrix@, row as int, col as int);
        lemma_sub_grid_index(matrix@, row as int, col as int);
        lemma_sub_grid_bounded(matrix@, row as int, col as int, ENTRY_LIMIT as int);
        lemma_det_bound(sub_grid(matrix@, row as int, col as int));
    }
    let m = minor(matrix, row, col);
    if (row + col) % 2 == 0 {
        m
    } else {
        -m
    }
}

impl Matrix {
    /// The determinant of this matrix.
    pub fn determinant(&self) -> (r: i64)
        requires
            det_wf(self@),
            bounded_grid(self@, ENTRY_LIMIT as int),
        ensures
            r as int == spec_det(self@),
    {
        determinant(self)
    }

    /// Whether the determinant is nonzero beyond the tolerance.
    pub fn is_invertible(&self) -> (r: bool)
        requires
            det_wf(self@),
            bounded_grid(self@, ENTRY_LIMIT as int),
        ensures
            r == !approx(spec_det(self@), 0),
    {
        let d = determinant(self);
        !f_equal(d, 0)
    }

    /// The inverse by the adjugate: entry `[j][i]` of the result is
    /// `cofactor(i, j) / det`. A matrix whose determinant is within the
    /// tolerance of zero is a `SingularMatrix`; one whose inverse leaves
    /// the kernel's coordinate range is an `OutOfRange`.
    pub fn inverse(&self) -> (r: Result<Matrix, TraceError>)
        requires
            wf_grid(self@),
            bounded_grid(self@, ENTRY_LIMIT as int),
        ensures
            approx(spec_det(self@), 0) ==> r == Err::<Matrix, TraceError>(
                TraceError::SingularMatrix,
            ),
            !approx(spec_det(self@), 0) && !inv_in_range(self@) ==> r == Err::<
                Matrix,
                TraceError,
            >(TraceError::OutOfRange),
            !approx(spec_det(self@), 0) && inv_in_range(self@) ==> r is Ok && {
                let m = r.unwrap();
                &&& m@ == inv_grid(self@)
                &&& m@.len() == self@.len()
                &&& wf_grid(m@)
                &&& bounded_grid(m@, COORD_LIMIT as int)
                &&& forall|i: int, j: int|
                    0 <= i < self@.len() && 0 <= j < self@.len() ==> #[trigger] m@[j][i] == fdiv(
                        spec_cof(self@, i, j),
                        spec_det(self@),
                    )
            },
    {
        let ghost g = self@;
        let d = determinant(self);
        if f_equal(d, 0) {
            return Err(TraceError::SingularMatrix);
        }
        let n = self.value.len();
        let mut rows: Vec<Vec<i64>> = Vec::new();
        for r in 0..n
            invariant
                n == self.value@.len(),
                g == self@,
                wf_grid(g),
                bounded_grid(g, ENTRY_LIMIT as int),
                d as int == spec_det(g),
                !approx(d as int, 0),
                rows@.len() == r,
                forall|a: int| 0 <= a < r ==> (#[trigger] rows@[a])@.len() == n,
                forall|a: int, b: int|
                    0 <= a < r && 0 <= b < n ==> #[trigger] rows@[a]@[b] == fdiv(
                        spec_cof(g, b, a),
                        spec_det(g),
                    ),
                forall|a: int, b: int|
                    0 <= a < r && 0 <= b < n ==> iabs(#[trigger] rows@[a]@[b] as int)
                        <= COORD_LIMIT as int,
        {
            let mut row: Vec<i64> = Vec::new();
            for c in 0..n
                invariant
                    n == self.value@.len(),
                    g == self@,
                    wf_grid(g),
                    bounded_grid(g, ENTRY_LIMIT as int),
                    d as int == spec_det(g),
                    !approx(d as int, 0),
                    r < n,
                    row@.len() == c,
                    forall|b: int|
                        0 <= b < c ==> row@[b] == fdiv(spec_cof(g, b, r as int), spec_det(g)),
                    forall|b: int|
                        0 <= b < c ==> iabs(#[trigger] row@[b] as int) <= COORD_LIMIT as int,
            {
                let cf = cofactor(self, c, r);
                proof {
                    assert(iabs(cf as int) <= det_cap(n - 1));
                    assert((cf as i128) * (SCALE as i128) == (cf as int) * (SCALE as int));
                }
                let q = tdiv_i128(cf as i128 * (SCALE as i128), d as i128);
                if q > COORD_LIMIT as i128 || q < -(COORD_LIMIT as i128) {
                    proof {
                        assert(iabs(fdiv(spec_cof(g, c as int, r as int), spec_det(g)))
                            > COORD_LIMIT as int);
                        assert(!inv_in_range(g));
                    }
                    return Err(TraceError::OutOfRange);
                }
                row.push(q as i64);
            }
            rows.push(row);
        }
        let m = Matrix { value: rows };
        proof {
            lemma_grid_index(rows@);
            assert forall|i: int, j: int| 0 <= i < n && 0 <= j < n implies iabs(
                #[trigger] fdiv(spec_cof(g, i, j), spec_det(g)),
            ) <= COORD_LIMIT as int by {
                assert(m@[j][i] == fdiv(spec_cof(g, i, j), spec_det(g)));
                assert(iabs(m@[j][i]) <= COORD_LIMIT as int);
            }
            assert(m@ =~~= inv_grid(g));
        }
        Ok(m)
    }
}

/// The axis a rotation turns about.
#[derive(Clone, Copy, Debug, PartialEq, Eq, Structural)]
pub enum RotationAxis {
    X,
    Y,
    Z,
}

/// The translation matrix: identity with the offsets in the last column.
pub open spec fn translation_grid(x: int, y: int, z: int) -> Seq<Seq<int>> {
    seq![
        seq![SCALE as int, 0, 0, x],
        seq![0, SCALE as int, 0, y],
        seq![0, 0, SCALE as int, z],
        seq![0, 0, 0, SCALE as int],
    ]
}

/// The scaling matrix: the factors on the diagonal.
pub open spec fn scaling_grid(x: int, y: int, z: int) -> Seq<Seq<int>> {
    seq![
        seq![x, 0, 0, 0],
        seq![0, y, 0, 0],
        seq![0, 0, z, 0],
        seq![0, 0, 0, SCALE as int],
    ]
}

/// The rotation matrix about an axis, given the angle's cosine and sine.
pub open spec fn rotation_grid(axis: RotationAxis, c: int, s: int) -> Seq<Seq<int>> {
    match axis {
        RotationAxis::X => seq![
            seq![SCALE as int, 0, 0, 0],
            seq![0, c, -s, 0],
            seq![0, s, c, 0],
            seq![0, 0, 0, SCALE as int],
        ],
        RotationAxis::Y => seq![
            seq![c, 0, s, 0],
            seq![0, SCALE as int, 0, 0],
            seq![-s, 0, c, 0],
            seq![0, 0, 0, SCALE as int],
        ],
        RotationAxis::Z => seq![
            seq![c, -s, 0, 0],
            seq![s, c, 0, 0],
            seq![0, 0, SCALE as int, 0],
            seq![0, 0, 0, SCALE as int],
        ],
    }
}

/// The shearing matrix: each parameter moves one coordinate in proportion
/// to another.
pub open spec fn shearing_grid(xy: int, xz: int, yx: int, yz: int, zx: int, zy: int) -> Seq<
    Seq<int>,
> {
    seq![
        seq![SCALE as int, xy, xz, 0],
        seq![yx, SCALE as int, yz, 0],
        seq![zx, zy, SCALE as int, 0],
        seq![0, 0, 0, SCALE as int],
    ]
}

impl Matrix {
    /// The translation by `(x, y, z)`.
    pub fn translation(x: i64, y: i64, z: i64) -> (r: Matrix)
        requires
            iabs(x as int) <= ENTRY_LIMIT as int,
            iabs(y as int) <= ENTRY_LIMIT as int,
            iabs(z as int) <= ENTRY_LIMIT as int,
        ensures
            r@ == translation_grid(x as int, y as int, z as int),
            wf_grid(r@),
            bounded_grid(r@, ENTRY_LIMIT as int),
    {
        let mut rows: Vec<Vec<i64>> = Vec::new();
        rows.push(row4(SCALE, 0, 0, x));
        rows.push(row4(0, SCALE, 0, y));
        rows.push(row4(0, 0, SCALE, z));
        rows.push(row4(0, 0, 0, SCALE));
        let m = Matrix { value: rows };
        proof {
            assert(m@ =~~= translation_grid(x as int, y as int, z as int));
        }
        m
    }

    /// The scaling by `(x, y, z)`.
    pub fn scaling(x: i64, y: i64, z: i64) -> (r: Matrix)
        requires
            iabs(x as int) <= ENTRY_LIMIT as int,
            iabs(y as int) <= ENTRY_LIMIT as int,
            iabs(z as int) <= ENTRY_LIMIT as int,
        ensures
            r@ == scaling_grid(x as int, y as int, z as int),
            wf_grid(r@),
            bounded_grid(r@, ENTRY_LIMIT as int),
    {
        let mut rows: Vec<Vec<i64>> = Vec::new();
        rows.push(row4(x, 0, 0, 0));
        rows.push(row4(0, y, 0, 0));
        rows.push(row4(0, 0, z, 0));
        rows.push(row4(0, 0, 0, SCALE));
        let m = Matrix { value: rows };
        proof {
            assert(m@ =~~= scaling_grid(x as int, y as int, z as int));
        }
        m
    }

    /// The rotation about an axis. The caller supplies the cosine and sine
    /// of the angle as fixed-point scalars, each within one in magnitude;
    /// trigonometry itself lives outside this kernel.
    pub fn rotation(axis: RotationAxis, cos_t: i64, sin_t: i64) -> (r: Matrix)
        requires
            iabs(cos_t as int) <= SCALE as int,
            iabs(sin_t as int) <= SCALE as int,
        ensures
            r@ == rotation_grid(axis, cos_t as int, sin_t as int),
            wf_grid(r@),
            bounded_grid(r@, ENTRY_LIMIT as int),
    {
        let mut rows: Vec<Vec<i64>> = Vec::new();
        match axis {
            RotationAxis::X => {
                rows.push(row4(SCALE, 0, 0, 0));
                rows.push(row4(0, cos_t, -sin_t, 0));
                rows.push(row4(0, sin_t, cos_t, 0));
                rows.push(row4(0, 0, 0, SCALE));
            },
            RotationAxis::Y => {
                rows.push(row4(cos_t, 0, sin_t, 0));
                rows.push(row4(0, SCALE, 0, 0));
                rows.push(row4(-sin_t, 0, cos_t, 0));
                rows.push(row4(0, 0, 0, SCALE));
            },
            RotationAxis::Z => {
                rows.push(row4(cos_t, -sin_t, 0, 0));
                rows.push(row4(sin_t, cos_t, 0, 0));
                rows.push(row4(0, 0, SCALE, 0));
                rows.push(row4(0, 0, 0, SCALE));
            },
        }
        let m = Matrix { value: rows };
        proof {
            assert(m@ =~~= rotation_grid(axis, cos_t as int, sin_t as int));
        }
        m
    }

    /// The shearing with the six proportions.
    pub fn shearing(xy: i64, xz: i64, yx: i64, yz: i64, zx: i64, zy: i64) -> (r: Matrix)
        requires
            iabs(xy as int) <= ENTRY_LIMIT as int,
            iabs(xz as int) <= ENTRY_LIMIT as int,
            iabs(yx as int) <= ENTRY_LIMIT as int,
            iabs(yz as int) <= ENTRY_LIMIT as int,
            iabs(zx as int) <= ENTRY_LIMIT as int,
            iabs(zy as int) <= ENTRY_LIMIT as int,
        ensures
            r@ == shearing_grid(xy as int, xz as int, yx as int, yz as int, zx as int, zy as int),
            wf_grid(r@),
            bounded_grid(r@, ENTRY_LIMIT as int),
    {
        let mut rows: Vec<Vec<i64>> = Vec::new();
        rows.push(row4(SCALE, xy, xz, 0));
        rows.push(row4(yx, SCALE, yz, 0));
        rows.push(row4(zx, zy, SCALE, 0));
        rows.push(row4(0, 0, 0, SCALE));
        let m = Matrix { value: rows };
        proof {
            assert(m@ =~~= shearing_grid(
                xy as int,
                xz as int,
                yx as int,
                yz as int,
                zx as int,
                zy as int,
            ));
        }
        m
    }
}

/// The determinant of the identity matrix of any supported dimension is
/// one (in fixed-point units), exactly.
pub proof fn lemma_determinant_identity(n: int)
    requires
        2 <= n <= 4,
    ensures
        spec_det(id_grid(n)) == SCALE as int,
{
    lemma_fmul_scale_scale();
    lemma_det_id2();
    if n >= 3 {
        lemma_det_id3();
    }
    if n == 4 {
        let g = id_grid(4);
        lemma_sub_grid_index(g, 0, 0);
        assert(sub_grid(g, 0, 0) =~~= id_grid(3));
        assert(spec_cof(g, 0, 0) == spec_det(id_grid(3)));
        assert(det_sum(g, 4) == 0);
        lemma_fmul_zero(spec_cof(g, 0, 3));
        lemma_fmul_zero(spec_cof(g, 0, 2));
        lemma_fmul_zero(spec_cof(g, 0, 1));
        assert(det_sum(g, 3) == fmul(g[0][3], spec_cof(g, 0, 3)) + det_sum(g, 4));
        assert(g[0][3] == 0 && g[0][2] == 0 && g[0][1] == 0 && g[0][0] == SCALE as int);
        assert(det_sum(g, 2) == fmul(g[0][2], spec_cof(g, 0, 2)) + det_sum(g, 3));
        assert(det_sum(g, 1) == fmul(g[0][1], spec_cof(g, 0, 1)) + det_sum(g, 2));
        assert(det_sum(g, 0) == fmul(g[0][0], spec_cof(g, 0, 0)) + det_sum(g, 1));
        assert(spec_det(g) == fmul(SCALE as int, SCALE as int));
    }
}

/// One times one is one, in fixed-point units.
proof fn lemma_fmul_scale_scale()
    ensures
        fmul(SCALE as int, SCALE as int) == SCALE as int,
{
    let s = SCALE as int;
    vstd::arithmetic::div_mod::lemma_div_by_multiple(s, s);
    assert(iabs(s * s) == s * s && s * s == s * s);
    assert(iabs(s * s) / iabs(s) == (s * s) / s);
}

/// Zero times anything is zero, in fixed-point units.
proof fn lemma_fmul_zero(c: int)
    ensures
        fmul(0, c) == 0,
{
    assert(0 * c == 0) by (nonlinear_arith);
    vstd::arithmetic::div_mod::lemma_div_by_multiple(0, SCALE as int);
}

proof fn lemma_det_id2()
    ensures
        spec_det(id_grid(2)) == SCALE as int,
{
    let g = id_grid(2);
    lemma_fmul_scale_scale();
    lemma_fmul_zero(0);
    assert(g[0][0] == SCALE as int && g[1][1] == SCALE as int && g[0][1] == 0 && g[1][0] == 0);
    assert(spec_det(g) == fmul(SCALE as int, SCALE as int) - fmul(0, 0));
}

proof fn lemma_det_id3()
    ensures
        spec_det(id_grid(3)) == SCALE as int,
{
    let g = id_grid(3);
    lemma_det_id2();
    lemma_fmul_scale_scale();
    lemma_sub_grid_index(g, 0, 0);
    assert(sub_grid(g, 0, 0) =~~= id_grid(2));
    assert(spec_cof(g, 0, 0) == spec_det(id_grid(2)));
    assert(det_sum(g, 3) == 0);
    lemma_fmul_zero(spec_cof(g, 0, 2));
    lemma_fmul_zero(spec_cof(g, 0, 1));
    assert(g[0][2] == 0 && g[0][1] == 0 && g[0][0] == SCALE as int);
    assert(det_sum(g, 2) == fmul(g[0][2], spec_cof(g, 0, 2)) + det_sum(g, 3));
    assert(det_sum(g, 1) == fmul(g[0][1], spec_cof(g, 0, 1)) + det_sum(g, 2));
    assert(det_sum(g, 0) == fmul(g[0][0], spec_cof(g, 0, 0)) + det_sum(g, 1));
    assert(spec_det(g) == fmul(SCALE as int, SCALE as int));
}

/// Checks that every entry of the matrix fits within the given magnitude.
pub fn entries_within(m: &Matrix, limit: i64) -> (r: bool)
    requires
        limit >= 0,
    ensures
        r == bounded_grid(m@, limit as int),
{
    proof {
        lemma_grid_index(m.value@);
    }
    let n = m.value.len();
    for i in 0..n
        invariant
            n == m.value@.len(),
            limit >= 0,
            forall|a: int, b: int|
                0 <= a < i && 0 <= b < m@[a].len() ==> iabs(#[trigger] m@[a][b]) <= limit as int,
    {
        let k = m.value[i].len();
        for j in 0..k
            invariant
                n == m.value@.len(),
                limit >= 0,
                i < n,
                k == m.value@[i as int]@.len(),
                forall|a: int, b: int|
                    0 <= a < i && 0 <= b < m@[a].len() ==> iabs(#[trigger] m@[a][b])
                        <= limit as int,
                forall|b: int|
                    0 <= b < j ==> iabs(#[trigger] m@[i as int][b]) <= limit as int,
        {
            let v = m.value[i][j];
            if v > limit || v < -limit {
                proof {
                    lemma_grid_index(m.value@);
                    assert(iabs(m@[i as int][j as int]) > limit as int);
                }
                return false;
            }
        }
    }
    true
}

/// Multiplying a 2x2 grid by its inverse grid yields the identity within
/// the tolerance, entry by entry: the product entry is computed as the
/// kernel computes one (two exact products, one rounding), and lands within
/// `EPS_UNITS` of one on the diagonal and of zero off it. The entries must
/// fit within forty and the determinant reach a quarter, in fixed-point
/// units: nearer the singular edge the rounding of the inverse entries can
/// exceed the tolerance.
pub proof fn lemma_inverse_product_2x2(g: Seq<Seq<int>>, i: int, j: int)
    requires
        g.len() == 2,
        g[0].len() == 2,
        g[1].len() == 2,
        bounded_grid(g, 40 * (SCALE as int)),
        iabs(spec_det(g)) >= (SCALE as int) / 4,
        0 <= i < 2,
        0 <= j < 2,
    ensures
        approx(
            tdiv(g[i][0] * inv_grid(g)[0][j] + g[i][1] * inv_grid(g)[1][j], SCALE as int),
            if i == j {
                SCALE as int
            } else {
                0
            },
        ),
{
    let s = SCALE as int;
    let det = spec_det(g);
    let a = g[0][0];
    let b = g[0][1];
    let c = g[1][0];
    let d = g[1][1];
    assert(wf_grid(g)) by {
        assert(forall|k: int| 0 <= k < 2 ==> (#[trigger] g[k]).len() == 2) by {
            assert(g[0].len() == 2 && g[1].len() == 2);
        }
    }
    // The cofactors of a 2x2 grid are its entries, crosswise and signed.
    lemma_sub_grid_index(g, 0, 0);
    lemma_sub_grid_index(g, 0, 1);
    lemma_sub_grid_index(g, 1, 0);
    lemma_sub_grid_index(g, 1, 1);
    assert(sub_grid(g, 0, 0)[0][0] == d && sub_grid(g, 0, 0).len() == 1);
    assert(sub_grid(g, 0, 1)[0][0] == c && sub_grid(g, 0, 1).len() == 1);
    assert(sub_grid(g, 1, 0)[0][0] == b && sub_grid(g, 1, 0).len() == 1);
    assert(sub_grid(g, 1, 1)[0][0] == a && sub_grid(g, 1, 1).len() == 1);
    assert(spec_cof(g, 0, 0) == d);
    assert(spec_cof(g, 0, 1) == -c);
    assert(spec_cof(g, 1, 0) == -b);
    assert(spec_cof(g, 1, 1) == a);
    let i0 = inv_grid(g)[0][j];
    let i1 = inv_grid(g)[1][j];
    let c0 = spec_cof(g, j, 0);
    let c1 = spec_cof(g, j, 1);
    let p = g[i][0];
    let q = g[i][1];
    assert(i0 == fdiv(c0, det));
    assert(i1 == fdiv(c1, det));
    // Each inverse entry times the determinant misses the scaled cofactor
    // by less than one determinant.
    lemma_tdiv_product_err(c0 * s, det);
    lemma_tdiv_product_err(c1 * s, det);
    let e0 = i0 * det - c0 * s;
    let e1 = i1 * det - c1 * s;
    assert(iabs(e0) < iabs(det) && iabs(e1) < iabs(det));
    // The alien-cofactor sum vanishes; the matching one is the exact
    // determinant before rounding.
    let t = p * c0 + q * c1;
    if i == j {
        assert(t == a * d - b * c) by (nonlinear_arith)
            requires
                (i == 0 && t == a * d + b * (-c)) || (i == 1 && t == c * (-b) + d * a),
        ;
    } else {
        assert(t == 0) by (nonlinear_arith)
            requires
                (i == 0 && t == a * (-b) + b * a) || (i == 1 && t == c * d + d * (-c)),
        ;
    }
    // The rounded determinant misses the exact one by less than two units.
    lemma_tdiv_product_err(a * d, s);
    lemma_tdiv_product_err(b * c, s);
    let s1 = a * d - fmul(a, d) * s;
    let s2 = b * c - fmul(b, c) * s;
    assert(det == fmul(a, d) - fmul(b, c));
    assert(a * d - b * c == det * s + s1 - s2) by (nonlinear_arith)
        requires
            s1 == a * d - fmul(a, d) * s,
            s2 == b * c - fmul(b, c) * s,
            det == fmul(a, d) - fmul(b, c),
    ;
    let ex = p * i0 + q * i1;
    assert(ex * det == p * (i0 * det) + q * (i1 * det)) by (nonlinear_arith)
        requires
            ex == p * i0 + q * i1,
    ;
    assert(p * (i0 * det) == p * (c0 * s) + p * e0) by (nonlinear_arith)
        requires
            i0 * det == c0 * s + e0,
    ;
    assert(q * (i1 * det) == q * (c1 * s) + q * e1) by (nonlinear_arith)
        requires
            i1 * det == c1 * s + e1,
    ;
    assert(p * (c0 * s) + q * (c1 * s) == t * s) by (nonlinear_arith)
        requires
            t == p * c0 + q * c1,
    ;
    assert(ex * det == t * s + p * e0 + q * e1);
    // Bound the error terms.
    assert(iabs(p * e0) <= 40 * s * iabs(det) && iabs(q * e1) <= 40 * s * iabs(det))
        by (nonlinear_arith)
        requires
            iabs(p) <= 40 * s,
            iabs(q) <= 40 * s,
            iabs(e0) < iabs(det),
            iabs(e1) < iabs(det),
            s > 0,
            iabs(det) >= 0,
    ;
    let target = if i == j {
        s
    } else {
        0
    };
    assert((i == j && t * s == det * s * s + (s1 - s2) * s) || (i != j && t == 0))
        by (nonlinear_arith)
        requires
            (i == j && t == a * d - b * c && a * d - b * c == det * s + s1 - s2) || (i != j && t
                == 0),
    ;
    assert(iabs(ex * det - target * s * det) <= 88 * s * iabs(det)) by (nonlinear_arith)
        requires
            ex * det == t * s + p * e0 + q * e1,
            (i == j && t * s == det * s * s + (s1 - s2) * s && target == s) || (i != j && t == 0
                && target == 0),
            iabs(s1) < s,
            iabs(s2) < s,
            iabs(p * e0) <= 40 * s * iabs(det),
            iabs(q * e1) <= 40 * s * iabs(det),
            iabs(det) >= s / 4,
            s == 10_000_000,
    ;
    assert(iabs(ex - target * s) <= 88 * s) by (nonlinear_arith)
        requires
            iabs(ex * det - target * s * det) <= 88 * s * iabs(det),
            iabs(det) > 0,
            s > 0,
    ;
    let entry = tdiv(ex, s);
    lemma_tdiv_product_err(ex, s);
    assert(iabs(entry - target) < 100) by (nonlinear_arith)
        requires
            entry == tdiv(ex, s),
            iabs(entry * s - ex) < s,
            iabs(ex - target * s) <= 88 * s,
            s == 10_000_000,
    ;
}

impl Clone for Matrix {
    /// An entry-for-entry copy.
    fn clone(&self) -> (r: Self)
        ensures
            r@ == self@,
            r.value@.len() == self.value@.len(),
            forall|i: int|
                0 <= i < self.value@.len() ==> (#[trigger] r.value@[i])@ == self.value@[i]@,
    {
        let n = self.value.len();
        let mut rows: Vec<Vec<i64>> = Vec::new();
        for i in 0..n
            invariant
                n == self.value@.len(),
                rows@.len() == i,
                forall|a: int| 0 <= a < i ==> (#[trigger] rows@[a])@ == self.value@[a]@,
        {
            let k = self.value[i].len();
            let mut row: Vec<i64> = Vec::new();
            for j in 0..k
                invariant
                    n == self.value@.len(),
                    i < n,
                    k == self.value@[i as int]@.len(),
                    row@.len() == j,
                    forall|b: int| 0 <= b < j ==> row@[b] == self.value@[i as int]@[b],
            {
                row.push(self.value[i][j]);
            }
            proof {
                assert(row@ =~= self.value@[i as int]@);
            }
            rows.push(row);
        }
        let m = Matrix { value: rows };
        proof {
            assert(m@ =~~= self@);
        }
        m
    }
}

impl PartialEq for Matrix {
    /// Tolerance-based equality: same shape, entries within `EPS_UNITS`.
    fn eq(&self, other: &Matrix) -> (r: bool) {
        proof {
            lemma_grid_index(self.value@);
            lemma_grid_index(other.value@);
        }
        if self.value.len() != other.value.len() {
            return false;
        }
        let n = self.value.len();
        for i in 0..n
            invariant
                n == self.value@.len(),
                n == other.value@.len(),
                forall|a: int| 0 <= a < i ==> (#[trigger] self@[a]).len() == other@[a].len(),
                forall|a: int, b: int|
                    0 <= a < i && 0 <= b < self@[a].len() ==> approx(
                        #[trigger] self@[a][b],
                        other@[a][b],
                    ),
        {
            if self.value[i].len() != other.value[i].len() {
                proof {
                    lemma_grid_index(self.value@);
                    lemma_grid_index(other.value@);
                    assert(self@[i as int].len() != other@[i as int].len());
                }
                return false;
            }
            let k = self.value[i].len();
            for j in 0..k
                invariant
                    n == self.value@.len(),
                    n == other.value@.len(),
                    i < n,
                    k == self.value@[i as int]@.len(),
                    k == other.value@[i as int]@.len(),
                    forall|a: int| 0 <= a < i ==> (#[trigger] self@[a]).len() == other@[a].len(),
                    forall|a: int, b: int|
                        0 <= a < i && 0 <= b < self@[a].len() ==> approx(
                            #[trigger] self@[a][b],
                            other@[a][b],
                        ),
                    forall|b: int|
                        0 <= b < j ==> approx(
                            #[trigger] self@[i as int][b],
                            other@[i as int][b],
                        ),
            {
                if !f_equal(self.value[i][j], other.value[i][j]) {
                    proof {
                        lemma_grid_index(self.value@);
                        lemma_grid_index(other.value@);
                        assert(!approx(self@[i as int][j as int], other@[i as int][j as int]));
                    }
                    return false;
                }
            }
        }
        true
    }
}

impl vstd::std_specs::cmp::PartialEqSpecImpl for Matrix {
    open spec fn obeys_eq_spec() -> bool {
        true
    }

    open spec fn eq_spec(&self, other: &Matrix) -> bool {
        grid_approx(self@, other@)
    }
}

} // verus!
