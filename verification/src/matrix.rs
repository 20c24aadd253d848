//! Square, row-major, dynamically sized matrices of fixed-point cells:
//! construction, indexed read and write, multiplication by an equal-size
//! square matrix, and the 4x4 homogeneous transform of a tuple.
//!
//! The dimension and bounds checks that are fatal errors in use are stated
//! here as preconditions: a verified caller can never trip them.

use crate::fixed::{fits, prod, prod_wide, Fixed, SCALE};
use crate::tuples::FourTuple;
use vstd::arithmetic::mul::lemma_mul_inequality;
use vstd::prelude::*;

verus! {

#[derive(Debug)]
pub struct Matrix {
    pub rows: usize,
    pub cols: usize,
    pub cells: Vec<Fixed>,
}

impl Matrix {
    /// The backing buffer holds exactly rows x cols cells.
    pub open spec fn wf(self) -> bool {
        self.cells@.len() == self.rows * self.cols
    }

    /// The cell in row `i`, column `j` (row-major layout).
    pub open spec fn cell(self, i: int, j: int) -> Fixed {
        self.cells@[i * self.cols + j]
    }

    /// A zero-filled matrix of the given dimensions, rows first.
    pub fn new(rows: usize, cols: usize) -> (r: Matrix)
        requires
            rows * cols <= usize::MAX,
        ensures
            r.wf(),
            r.rows == rows,
            r.cols == cols,
            forall|p: int| 0 <= p < r.cells@.len() ==> r.cells@[p].raw == 0,
    {
        let total: usize = rows * cols;
        let mut cells: Vec<Fixed> = Vec::new();
        let mut i: usize = 0;
        while i < total
            invariant
                i <= total,
                cells@.len() == i,
                forall|p: int| 0 <= p < i ==> cells@[p].raw == 0,
            decreases total - i,
        {
            cells.push(Fixed { raw: 0 });
            i = i + 1;
        }
        Matrix { rows, cols, cells }
    }

    /// A matrix over the given backing buffer, which must have exactly
    /// rows x cols cells (a fatal construction error otherwise).
    pub fn from_vec(rows: usize, cols: usize, cells: Vec<Fixed>) -> (r: Matrix)
        requires
            cells@.len() == rows * cols,
        ensures
            r.wf(),
            r.rows == rows,
            r.cols == cols,
            r.cells@ == cells@,
    {
        Matrix { rows, cols, cells }
    }

    /// The 4x4 identity matrix: 1 on the diagonal, 0 elsewhere.
    pub fn identity() -> (r: Matrix)
        ensures
            r.wf(),
            r.rows == 4,
            r.cols == 4,
            is_identity4(r),
    {
        let mut cells: Vec<Fixed> = Vec::new();
        let mut i: usize = 0;
        while i < 4
            invariant
                i <= 4,
                cells@.len() == i * 4,
                forall|a: int, b: int|
                    0 <= a < i && 0 <= b < 4 ==> #[trigger] cells@[a * 4 + b].raw == if a == b {
                        SCALE as int
                    } else {
                        0
                    },
            decreases 4 - i,
        {
            let mut j: usize = 0;
            while j < 4
                invariant
                    i < 4,
                    j <= 4,
                    cells@.len() == i * 4 + j,
                    forall|a: int, b: int|
                        0 <= a < i && 0 <= b < 4 ==> #[trigger] cells@[a * 4 + b].raw == if a == b {
                            SCALE as int
                        } else {
                            0
                        },
                    forall|b: int|
                        0 <= b < j ==> #[trigger] cells@[i * 4 + b].raw == if i == b {
                            SCALE as int
                        } else {
                            0
                        },
                decreases 4 - j,
            {
                if i == j {
                    cells.push(Fixed { raw: SCALE });
                } else {
                    cells.push(Fixed { raw: 0 });
                }
                j = j + 1;
            }
            i = i + 1;
        }
        Matrix { rows: 4, cols: 4, cells }
    }

    /// Product with an equal-size square matrix: the classic triple loop.
    /// Each cell of the result is the running sum of truncated products in
    /// index order; the preconditions keep every running sum representable.
    pub fn mul(&self, other: &Matrix) -> (r: Matrix)
        requires
            self.wf(),
            other.wf(),
            self.rows == self.cols,
            other.rows == other.cols,
            self.rows == other.rows,
            mul_fits(*self, *other),
        ensures
            r.wf(),
            r.rows == self.rows,
            r.cols == self.cols,
            forall|i: int, j: int|
                0 <= i < r.rows && 0 <= j < r.cols ==> r.cell(i, j).raw == mul_entry(
                    *self,
                    *other,
                    i,
                    j,
                ),
    {
        let n: usize = self.rows;
        let len: usize = self.cells.len();
        let mut cells: Vec<Fixed> = Vec::new();
        let mut i: usize = 0;
        while i < n
            invariant
                i <= n,
                self.wf(),
                other.wf(),
                self.rows == n,
                self.cols == n,
                other.rows == n,
                other.cols == n,
                mul_fits(*self, *other),
                len == n * n,
                len <= usize::MAX,
                cells@.len() == i * n,
                forall|a: int, b: int|
                    0 <= a < i && 0 <= b < n ==> #[trigger] cells@[a * n + b].raw == mul_entry(
                        *self,
                        *other,
                        a,
                        b,
                    ),
            decreases n - i,
        {
            let mut j: usize = 0;
            while j < n
                invariant
                    i < n,
                    j <= n,
                    self.wf(),
                    other.wf(),
                    self.rows == n,
                    self.cols == n,
                    other.rows == n,
                    other.cols == n,
                    mul_fits(*self, *other),
                    cells@.len() == i * n + j,
                    forall|a: int, b: int|
                        0 <= a < i && 0 <= b < n ==> #[trigger] cells@[a * n + b].raw == mul_entry(
                            *self,
                            *other,
                            a,
                            b,
                        ),
                    forall|b: int|
                        0 <= b < j ==> #[trigger] cells@[i * n + b].raw == mul_entry(*self, *other, i as int, b),
                decreases n - j,
            {
                let mut acc: i128 = 0;
                let mut k: usize = 0;
                while k < n
                    invariant
                        i < n,
                        j < n,
                        k <= n,
                        self.wf(),
                        other.wf(),
                        self.rows == n,
                        self.cols == n,
                        other.rows == n,
                        other.cols == n,
                        mul_fits(*self, *other),
                        acc == mul_partial(*self, *other, i as int, j as int, k as nat),
                        fits(acc as int),
                    decreases n - k,
                {
                    let a = value_at(self, i, k);
                    let b = value_at(other, k, j);
                    proof {
                        crate::fixed::lemma_prod_bound(a.raw as int, b.raw as int);
                        assert(mul_partial(*self, *other, i as int, j as int, (k + 1) as nat)
                            == mul_partial(*self, *other, i as int, j as int, k as nat) + prod(
                            a.raw as int,
                            b.raw as int,
                        ));
                    }
                    acc = acc + prod_wide(a.raw, b.raw);
                    k = k + 1;
                }
                cells.push(Fixed { raw: acc as i64 });
                proof {
                    lemma_mul_inequality(i as int + 1, n as int, n as int);
                    assert((i + 1) * n == i * n + n) by (nonlinear_arith);
                    assert forall|a: int, b: int|
                        0 <= a < i && 0 <= b < n implies #[trigger] cells@[a * n + b].raw
                        == mul_entry(*self, *other, a, b) by {
                        lemma_mul_inequality(a + 1, i as int, n as int);
                        assert((a + 1) * n == a * n + n) by (nonlinear_arith);
                    }
                    assert(forall|b: int|
                        0 <= b < j + 1 ==> #[trigger] cells@[i * n + b].raw == mul_entry(
                            *self,
                            *other,
                            i as int,
                            b,
                        ));
                }
                j = j + 1;
            }
            proof {
                assert((i + 1) * n == i * n + n) by (nonlinear_arith);
                assert forall|a: int, b: int|
                    0 <= a < i + 1 && 0 <= b < n implies #[trigger] cells@[a * n + b].raw
                    == mul_entry(*self, *other, a, b) by {
                    if a < i {
                        assert(cells@[a * n + b].raw == mul_entry(*self, *other, a, b));
                    } else {
                        assert(cells@[i * n + b].raw == mul_entry(*self, *other, i as int, b));
                    }
                }
            }
            i = i + 1;
        }
        proof {
            assert(cells@.len() == n * n);
        }
        Matrix { rows: n, cols: n, cells }
    }

    /// Homogeneous transform of a tuple by a 4x4 matrix:
    /// `result[i]` is the dot product of row `i` with the tuple.
    pub fn mul_tuple(&self, vector: &FourTuple) -> (r: FourTuple)
        requires
            self.wf(),
            self.rows == 4,
            self.cols == 4,
            forall|i: int| 0 <= i < 4 ==> fits(tuple_entry(*self, *vector, i)),
        ensures
            r.x.raw == tuple_entry(*self, *vector, 0),
            r.y.raw == tuple_entry(*self, *vector, 1),
            r.z.raw == tuple_entry(*self, *vector, 2),
            r.w.raw == tuple_entry(*self, *vector, 3),
    {
        let x = row_dot(self, 0, vector);
        let y = row_dot(self, 1, vector);
        let z = row_dot(self, 2, vector);
        let w = row_dot(self, 3, vector);
        FourTuple { x, y, z, w }
    }
}

/// Raw value of row `i` of a 4x4 transform applied to a tuple: the four
/// truncated products summed exactly.
pub open spec fn tuple_entry(m: Matrix, t: FourTuple, i: int) -> int {
    prod(m.cell(i, 0).raw as int, t.x.raw as int) + prod(m.cell(i, 1).raw as int, t.y.raw as int)
        + prod(m.cell(i, 2).raw as int, t.z.raw as int) + prod(
        m.cell(i, 3).raw as int,
        t.w.raw as int,
    )
}

/// One row of the homogeneous transform.
fn row_dot(m: &Matrix, i: usize, t: &FourTuple) -> (r: Fixed)
    requires
        m.wf(),
        m.rows == 4,
        m.cols == 4,
        i < 4,
        fits(tuple_entry(*m, *t, i as int)),
    ensures
        r.raw == tuple_entry(*m, *t, i as int),
{
    let c0 = value_at(m, i, 0);
    let c1 = value_at(m, i, 1);
    let c2 = value_at(m, i, 2);
    let c3 = value_at(m, i, 3);
    proof {
        crate::fixed::lemma_prod_bound(c0.raw as int, t.x.raw as int);
        crate::fixed::lemma_prod_bound(c1.raw as int, t.y.raw as int);
        crate::fixed::lemma_prod_bound(c2.raw as int, t.z.raw as int);
        crate::fixed::lemma_prod_bound(c3.raw as int, t.w.raw as int);
    }
    let s: i128 = prod_wide(c0.raw, t.x.raw) + prod_wide(c1.raw, t.y.raw) + prod_wide(
        c2.raw,
        t.z.raw,
    ) + prod_wide(c3.raw, t.w.raw);
    Fixed { raw: s as i64 }
}

/// Row-major index of a cell, in bounds whenever the coordinates are.
fn index(matrix: &Matrix, row: usize, col: usize) -> (idx: usize)
    requires
        matrix.wf(),
        row < matrix.rows,
        col < matrix.cols,
    ensures
        idx == row * matrix.cols + col,
        idx < matrix.cells@.len(),
{
    // The buffer length is a usize, so the index below cannot overflow.
    let _len = matrix.cells.len();
    proof {
        lemma_mul_inequality(row as int + 1, matrix.rows as int, matrix.cols as int);
        assert((row + 1) * matrix.cols == row * matrix.cols + matrix.cols) by (nonlinear_arith);
    }
    row * matrix.cols + col
}

/// Read the cell in `row`, `col`; out-of-bounds access is excluded by
/// precondition rather than checked at run time.
pub fn value_at(matrix: &Matrix, row: usize, col: usize) -> (r: Fixed)
    requires
        matrix.wf(),
        row < matrix.rows,
        col < matrix.cols,
    ensures
        r == matrix.cell(row as int, col as int),
{
    let idx = index(matrix, row, col);
    matrix.cells[idx]
}

/// Overwrite the cell in `row`, `col`, leaving every other cell unchanged.
pub fn set_val(matrix: &mut Matrix, row: usize, col: usize, value: Fixed)
    requires
        old(matrix).wf(),
        row < old(matrix).rows,
        col < old(matrix).cols,
    ensures
        final(matrix).rows == old(matrix).rows,
        final(matrix).cols == old(matrix).cols,
        final(matrix).cells@ == old(matrix).cells@.update(
            row * old(matrix).cols + col,
            value,
        ),
        final(matrix).wf(),
{
    let idx = index(matrix, row, col);
    matrix.cells[idx] = value;
}

/// Running sum of the first `k` truncated products of row `i` of `a`
/// against column `j` of `b`.
pub open spec fn mul_partial(a: Matrix, b: Matrix, i: int, j: int, k: nat) -> int
    decreases k,
{
    if k == 0 {
        0
    } else {
        mul_partial(a, b, i, j, (k - 1) as nat) + prod(
            a.cell(i, k - 1).raw as int,
            b.cell(k - 1, j).raw as int,
        )
    }
}

/// Raw value of cell `i`, `j` of the product.
pub open spec fn mul_entry(a: Matrix, b: Matrix, i: int, j: int) -> int {
    mul_partial(a, b, i, j, a.rows as nat)
}

/// Every running sum of the product is representable: the exact machine
/// limit under which the triple loop cannot overflow.
pub open spec fn mul_fits(a: Matrix, b: Matrix) -> bool {
    forall|i: int, j: int, k: nat|
        0 <= i < a.rows && 0 <= j < a.rows && k <= a.rows ==> fits(
            #[trigger] mul_partial(a, b, i, j, k),
        )
}

/// Running sums against the identity on the left pick out a single cell:
/// zero until the diagonal term arrives, the plain cell afterwards.
proof fn lemma_identity_partial_left(m: Matrix, a: Matrix, i: int, j: int, k: nat)
    requires
        is_identity4(m),
        a.wf(),
        a.rows == 4,
        a.cols == 4,
        0 <= i < 4,
        0 <= j < 4,
        k <= 4,
    ensures
        mul_partial(m, a, i, j, k) == if k > i {
            a.cell(i, j).raw as int
        } else {
            0
        },
    decreases k,
{
    if k > 0 {
        lemma_identity_partial_left(m, a, i, j, (k - 1) as nat);
        if k - 1 == i {
            crate::fixed::lemma_prod_one(a.cell(k - 1, j).raw as int);
        } else {
            crate::fixed::lemma_prod_zero(a.cell(k - 1, j).raw as int);
        }
    }
}

/// Running sums against the identity on the right behave the same way,
/// with the diagonal term in position `j`.
proof fn lemma_identity_partial_right(a: Matrix, m: Matrix, i: int, j: int, k: nat)
    requires
        is_identity4(m),
        a.wf(),
        a.rows == 4,
        a.cols == 4,
        0 <= i < 4,
        0 <= j < 4,
        k <= 4,
    ensures
        mul_partial(a, m, i, j, k) == if k > j {
            a.cell(i, j).raw as int
        } else {
            0
        },
    decreases k,
{
    if k > 0 {
        lemma_identity_partial_right(a, m, i, j, (k - 1) as nat);
        if k - 1 == j {
            crate::fixed::lemma_prod_one(a.cell(i, k - 1).raw as int);
        } else {
            crate::fixed::lemma_prod_zero(a.cell(i, k - 1).raw as int);
        }
    }
}

/// The 4x4 identity is a left multiplicative identity: against any 4x4
/// matrix the product's cells are that matrix's cells, and every running
/// sum is representable, so the multiplication itself is always allowed.
pub proof fn lemma_identity_mul_left(m: Matrix, a: Matrix)
    requires
        is_identity4(m),
        a.wf(),
        a.rows == 4,
        a.cols == 4,
    ensures
        mul_fits(m, a),
        forall|i: int, j: int|
            0 <= i < 4 && 0 <= j < 4 ==> #[trigger] mul_entry(m, a, i, j) == a.cell(i, j).raw,
{
    assert forall|i: int, j: int, k: nat|
        0 <= i < m.rows && 0 <= j < m.rows && k <= m.rows implies fits(
        #[trigger] mul_partial(m, a, i, j, k),
    ) by {
        lemma_identity_partial_left(m, a, i, j, k);
    }
    assert forall|i: int, j: int|
        0 <= i < 4 && 0 <= j < 4 implies #[trigger] mul_entry(m, a, i, j) == a.cell(i, j).raw by {
        lemma_identity_partial_left(m, a, i, j, 4);
    }
}

/// The 4x4 identity is a right multiplicative identity as well.
pub proof fn lemma_identity_mul_right(a: Matrix, m: Matrix)
    requires
        is_identity4(m),
        a.wf(),
        a.rows == 4,
        a.cols == 4,
    ensures
        mul_fits(a, m),
        forall|i: int, j: int|
            0 <= i < 4 && 0 <= j < 4 ==> #[trigger] mul_entry(a, m, i, j) == a.cell(i, j).raw,
{
    assert forall|i: int, j: int, k: nat|
        0 <= i < a.rows && 0 <= j < a.rows && k <= a.rows implies fits(
        #[trigger] mul_partial(a, m, i, j, k),
    ) by {
        lemma_identity_partial_right(a, m, i, j, k);
    }
    assert forall|i: int, j: int|
        0 <= i < 4 && 0 <= j < 4 implies #[trigger] mul_entry(a, m, i, j) == a.cell(i, j).raw by {
        lemma_identity_partial_right(a, m, i, j, 4);
    }
}

/// Every cell lies on the integer grid: its raw value is a whole multiple
/// of `SCALE`, so products of such cells rescale without truncation.
pub open spec fn integral(m: Matrix) -> bool {
    forall|i: int, j: int|
        0 <= i < m.rows && 0 <= j < m.cols ==> #[trigger] m.cell(i, j).raw as int % (SCALE as int) == 0
}

/// The product of two grid values is exact: it is `SCALE` times the
/// product of their integer parts, and itself lies on the grid.
proof fn lemma_prod_integral(x: int, y: int)
    requires
        x % (SCALE as int) == 0,
        y % (SCALE as int) == 0,
    ensures
        prod(x, y) == (SCALE as int) * ((x / (SCALE as int)) * (y / (SCALE as int))),
        prod(x, y) % (SCALE as int) == 0,
{
    let s = SCALE as int;
    let p = x / s;
    let q = y / s;
    vstd::arithmetic::div_mod::lemma_fundamental_div_mod(x, s);
    vstd::arithmetic::div_mod::lemma_fundamental_div_mod(y, s);
    assert(x * y == s * (s * (p * q))) by (nonlinear_arith)
        requires
            x == s * p,
            y == s * q,
    ;
    crate::fixed::lemma_prod_one(s * (p * q));
    vstd::arithmetic::div_mod::lemma_mod_multiples_basic(p * q, s);
    assert((p * q) * s == s * (p * q)) by (nonlinear_arith);
}

/// The summand of a product cell: the truncated product of the `t`-th
/// factor pair of row `i` of `a` against column `j` of `b`.
spec fn prod_fn(a: Matrix, b: Matrix, i: int, j: int) -> spec_fn(int) -> int {
    |t: int| prod(a.cell(i, t).raw as int, b.cell(t, j).raw as int)
}

/// The same summand with the scale divided out of both factors.
spec fn unit_prod_fn(a: Matrix, b: Matrix, i: int, j: int) -> spec_fn(int) -> int {
    |t: int| (a.cell(i, t).raw as int / (SCALE as int)) * (b.cell(t, j).raw as int / (SCALE as int))
}

/// The three-factor summand of a triple product, scale divided out.
spec fn triple_fn(a: Matrix, b: Matrix, c: Matrix, i: int, j: int) -> spec_fn(int, int) -> int {
    |k: int, l: int|
        (a.cell(i, k).raw as int / (SCALE as int)) * (b.cell(k, l).raw as int / (SCALE as int))
            * (c.cell(l, j).raw as int / (SCALE as int))
}

/// A running product sum is the finite sum of its summands.
proof fn lemma_mul_partial_is_sum(a: Matrix, b: Matrix, i: int, j: int, k: nat)
    ensures
        mul_partial(a, b, i, j, k) == crate::sums::sum(prod_fn(a, b, i, j), k),
    decreases k,
{
    if k > 0 {
        lemma_mul_partial_is_sum(a, b, i, j, (k - 1) as nat);
    }
}

/// One cell of a product of grid matrices: `SCALE` times the exact integer
/// dot product, and itself on the grid.
proof fn lemma_integral_product_entry(a: Matrix, b: Matrix, i: int, j: int)
    requires
        a.wf(),
        b.wf(),
        a.rows == a.cols,
        b.rows == b.cols,
        a.rows == b.rows,
        integral(a),
        integral(b),
        0 <= i < a.rows,
        0 <= j < a.rows,
    ensures
        mul_entry(a, b, i, j) == (SCALE as int) * crate::sums::sum(
            unit_prod_fn(a, b, i, j),
            a.rows as nat,
        ),
        mul_entry(a, b, i, j) % (SCALE as int) == 0,
{
    let s = SCALE as int;
    let n = a.rows as nat;
    lemma_mul_partial_is_sum(a, b, i, j, n);
    assert forall|k: int| 0 <= k < n implies #[trigger] prod_fn(a, b, i, j)(k) == s * unit_prod_fn(
        a,
        b,
        i,
        j,
    )(k) by {
        lemma_prod_integral(a.cell(i, k).raw as int, b.cell(k, j).raw as int);
    }
    crate::sums::lemma_sum_scale(prod_fn(a, b, i, j), unit_prod_fn(a, b, i, j), s, n);
    let total = crate::sums::sum(unit_prod_fn(a, b, i, j), n);
    vstd::arithmetic::div_mod::lemma_mod_multiples_basic(total, s);
    assert(total * s == s * total) by (nonlinear_arith);
}

/// Multiplication of grid matrices is associative: however the triple
/// product is bracketed, each cell is `SCALE` times the same exchanged
/// double sum. (With cells off the grid the truncation in each product
/// breaks this, so the law is stated for grid matrices only.)
pub proof fn lemma_mul_associative(a: Matrix, b: Matrix, c: Matrix, ab: Matrix, bc: Matrix)
    requires
        a.wf(),
        b.wf(),
        c.wf(),
        ab.wf(),
        bc.wf(),
        a.rows == a.cols,
        b.rows == b.cols,
        c.rows == c.cols,
        a.rows == b.rows,
        b.rows == c.rows,
        integral(a),
        integral(b),
        integral(c),
        ab.rows == a.rows,
        ab.cols == a.rows,
        bc.rows == a.rows,
        bc.cols == a.rows,
        forall|i: int, j: int|
            0 <= i < a.rows && 0 <= j < a.rows ==> #[trigger] ab.cell(i, j).raw == mul_entry(
                a,
                b,
                i,
                j,
            ),
        forall|i: int, j: int|
            0 <= i < a.rows && 0 <= j < a.rows ==> #[trigger] bc.cell(i, j).raw == mul_entry(
                b,
                c,
                i,
                j,
            ),
    ensures
        forall|i: int, j: int|
            0 <= i < a.rows && 0 <= j < a.rows ==> #[trigger] mul_entry(ab, c, i, j) == mul_entry(
                a,
                bc,
                i,
                j,
            ),
{
    let s = SCALE as int;
    let n = a.rows as nat;
    assert forall|i: int, j: int|
        0 <= i < a.rows && 0 <= j < a.rows implies #[trigger] mul_entry(ab, c, i, j) == mul_entry(
        a,
        bc,
        i,
        j,
    ) by {
        let g = triple_fn(a, b, c, i, j);
        // Left bracketing: each summand over l is SCALE times row l of g.
        lemma_mul_partial_is_sum(ab, c, i, j, n);
        assert forall|l: int| 0 <= l < n implies #[trigger] prod_fn(ab, c, i, j)(l) == s
            * crate::sums::sum(crate::sums::row_fn(g, l), n) by {
            lemma_integral_product_entry(a, b, i, l);
            lemma_prod_integral(ab.cell(i, l).raw as int, c.cell(l, j).raw as int);
            vstd::arithmetic::div_mod::lemma_div_multiples_vanish(
                crate::sums::sum(unit_prod_fn(a, b, i, l), n),
                s,
            );
            crate::sums::lemma_sum_scale_right(
                crate::sums::row_fn(g, l),
                unit_prod_fn(a, b, i, l),
                c.cell(l, j).raw as int / s,
                n,
            );
        }
        crate::sums::lemma_sum_scale(
            prod_fn(ab, c, i, j),
            |l: int| crate::sums::sum(crate::sums::row_fn(g, l), n),
            s,
            n,
        );
        // Right bracketing: each summand over k is SCALE times column k of g.
        lemma_mul_partial_is_sum(a, bc, i, j, n);
        assert forall|k: int| 0 <= k < n implies #[trigger] prod_fn(a, bc, i, j)(k) == s
            * crate::sums::sum(crate::sums::col_fn(g, k), n) by {
            lemma_integral_product_entry(b, c, k, j);
            lemma_prod_integral(a.cell(i, k).raw as int, bc.cell(k, j).raw as int);
            vstd::arithmetic::div_mod::lemma_div_multiples_vanish(
                crate::sums::sum(unit_prod_fn(b, c, k, j), n),
                s,
            );
            assert forall|l: int| 0 <= l < n implies #[trigger] crate::sums::col_fn(g, k)(l)
                == (a.cell(i, k).raw as int / s) * unit_prod_fn(b, c, k, j)(l) by {
                let x = a.cell(i, k).raw as int / s;
                let y = b.cell(k, l).raw as int / s;
                let z = c.cell(l, j).raw as int / s;
                assert(x * y * z == x * (y * z)) by (nonlinear_arith);
            }
            crate::sums::lemma_sum_scale(
                crate::sums::col_fn(g, k),
                unit_prod_fn(b, c, k, j),
                a.cell(i, k).raw as int / s,
                n,
            );
        }
        crate::sums::lemma_sum_scale(
            prod_fn(a, bc, i, j),
            |k: int| crate::sums::sum(crate::sums::col_fn(g, k), n),
            s,
            n,
        );
        // The two double sums agree by exchanging the summation order.
        crate::sums::lemma_sum_swap(g, n, n);
    }
}

impl vstd::std_specs::cmp::PartialEqSpecImpl for Matrix {
    open spec fn obeys_eq_spec() -> bool {
        true
    }

    open spec fn eq_spec(&self, other: &Matrix) -> bool {
        self.rows == other.rows && self.cols == other.cols && self.cells@ == other.cells@
    }
}

impl PartialEq for Matrix {
    /// Matrices are equal when their dimensions and all their cells agree.
    fn eq(&self, other: &Matrix) -> (r: bool) {
        if self.rows != other.rows || self.cols != other.cols || self.cells.len()
            != other.cells.len() {
            false
        } else {
            let mut p: usize = 0;
            while p < self.cells.len()
                invariant
                    p <= self.cells@.len(),
                    self.cells@.len() == other.cells@.len(),
                    forall|q: int| 0 <= q < p ==> self.cells@[q] == other.cells@[q],
                decreases self.cells@.len() - p,
            {
                if self.cells[p].raw != other.cells[p].raw {
                    return false;
                }
                p = p + 1;
            }
            proof {
                assert(self.cells@ =~= other.cells@);
            }
            true
        }
    }
}

/// The diagonal is 1 and every other cell 0 in a 4x4 matrix.
pub open spec fn is_identity4(m: Matrix) -> bool {
    &&& m.wf()
    &&& m.rows == 4
    &&& m.cols == 4
    &&& forall|i: int, j: int|
        0 <= i < 4 && 0 <= j < 4 ==> #[trigger] m.cell(i, j).raw == if i == j {
            SCALE as int
        } else {
            0
        }
}

} // verus!
