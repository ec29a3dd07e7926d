//! Index mapping between logical `(row, col)` positions and buffer offsets.
//!
//! A view never copies memory: it only says where each logical entry lives.
//! A column-major `R × C` matrix is the transpose of a row-major `C × R` one,
//! which is how the kernels read their inputs.
use vstd::prelude::*;

verus! {

/// Offset of `(r, c)` in a column-major buffer whose columns hold `rows` entries.
pub open spec fn col_major(rows: int, r: int, c: int) -> int {
    r + c * rows
}

/// Offset of `(r, c)` in a row-major buffer whose rows hold `cols` entries.
pub open spec fn row_major(cols: int, r: int, c: int) -> int {
    r * cols + c
}

/// A `rows × cols` logical matrix laid over a flat buffer of `rows * cols` entries.
#[derive(Clone, Copy, Debug, PartialEq, Eq, Structural)]
pub struct MatrixView {
    pub rows: usize,
    pub cols: usize,
    pub row_stride: usize,
    pub col_stride: usize,
}

impl MatrixView {
    /// Either rows or columns are contiguous, and the whole matrix fits in `usize`.
    pub open spec fn wf(&self) -> bool {
        &&& self.rows * self.cols <= usize::MAX
        &&& ((self.row_stride == self.cols && self.col_stride == 1) || (self.row_stride == 1
            && self.col_stride == self.rows))
    }

    pub open spec fn spec_offset(&self, r: int, c: int) -> int {
        r * self.row_stride + c * self.col_stride
    }

    /// The view of a buffer that stores a `rows × cols` matrix row by row.
    pub fn row_major(rows: usize, cols: usize) -> (v: MatrixView)
        requires
            rows * cols <= usize::MAX,
        ensures
            v.wf(),
            v.rows == rows,
            v.cols == cols,
            forall|r: int, c: int| #[trigger] v.spec_offset(r, c) == row_major(cols as int, r, c),
    {
        MatrixView { rows, cols, row_stride: cols, col_stride: 1 }
    }

    /// The transposed view of the same buffer: entry `(r, c)` is entry `(c, r)` of `self`.
    pub fn t(self) -> (v: MatrixView)
        requires
            self.wf(),
        ensures
            v.wf(),
            v.rows == self.cols,
            v.cols == self.rows,
            forall|r: int, c: int| #[trigger] v.spec_offset(r, c) == self.spec_offset(c, r),
    {
        assert(self.cols * self.rows == self.rows * self.cols) by (nonlinear_arith);
        MatrixView {
            rows: self.cols,
            cols: self.rows,
            row_stride: self.col_stride,
            col_stride: self.row_stride,
        }
    }

    /// The view of a buffer that stores a `rows × cols` matrix column by column,
    /// read as the transpose of a row-major `cols × rows` matrix.
    pub fn column_major(rows: usize, cols: usize) -> (v: MatrixView)
        requires
            rows * cols <= usize::MAX,
        ensures
            v.wf(),
            v.rows == rows,
            v.cols == cols,
            forall|r: int, c: int| #[trigger] v.spec_offset(r, c) == col_major(rows as int, r, c),
    {
        assert(cols * rows == rows * cols) by (nonlinear_arith);
        let v = MatrixView::row_major(cols, rows).t();
        assert forall|r: int, c: int| #[trigger] v.spec_offset(r, c) == col_major(rows as int, r, c) by {
            assert(v.spec_offset(r, c) == r * 1 + c * rows);
        }
        v
    }

    /// The buffer offset of logical entry `(r, c)`.
    pub fn offset(&self, r: usize, c: usize) -> (o: usize)
        requires
            self.wf(),
            r < self.rows,
            c < self.cols,
        ensures
            o == self.spec_offset(r as int, c as int),
            o < self.rows * self.cols,
    {
        proof {
            lemma_offset_in_bounds(*self, r as int, c as int);
        }
        r * self.row_stride + c * self.col_stride
    }
}

/// Each entry of a well-formed view lies inside the buffer, and both terms of
/// its offset do too.
pub proof fn lemma_offset_in_bounds(v: MatrixView, r: int, c: int)
    requires
        v.wf(),
        0 <= r < v.rows,
        0 <= c < v.cols,
    ensures
        0 <= r * v.row_stride,
        0 <= c * v.col_stride,
        0 <= v.spec_offset(r, c) < v.rows * v.cols,
{
    let (rows, cols) = (v.rows as int, v.cols as int);
    if v.col_stride == 1 {
        assert(0 <= r * cols && r * cols + c < rows * cols) by (nonlinear_arith)
            requires
                0 <= r < rows,
                0 <= c < cols,
        ;
    } else {
        assert(0 <= c * rows && r + c * rows < rows * cols) by (nonlinear_arith)
            requires
                0 <= r < rows,
                0 <= c < cols,
        ;
    }
}

/// Distinct entries of a well-formed view sit at distinct offsets, so a kernel
/// that writes every entry once writes every offset of the buffer once.
pub proof fn lemma_offset_injective(v: MatrixView, r1: int, c1: int, r2: int, c2: int)
    requires
        v.wf(),
        0 <= r1 < v.rows,
        0 <= c1 < v.cols,
        0 <= r2 < v.rows,
        0 <= c2 < v.cols,
        v.spec_offset(r1, c1) == v.spec_offset(r2, c2),
    ensures
        r1 == r2,
        c1 == c2,
{
    let (rows, cols) = (v.rows as int, v.cols as int);
    if v.col_stride == 1 {
        lemma_split_unique(cols, r1, c1, r2, c2);
    } else {
        lemma_split_unique(rows, c1, r1, c2, r2);
    }
}

/// `q * d + s` with `0 <= s < d` determines `q` and `s`.
proof fn lemma_split_unique(d: int, q1: int, s1: int, q2: int, s2: int)
    requires
        0 <= s1 < d,
        0 <= s2 < d,
        0 <= q1,
        0 <= q2,
        q1 * d + s1 == q2 * d + s2,
    ensures
        q1 == q2,
        s1 == s2,
{
    if q1 < q2 {
        assert(q1 * d + d <= q2 * d) by (nonlinear_arith)
            requires
                q1 < q2,
                0 <= d,
        ;
    } else if q2 < q1 {
        assert(q2 * d + d <= q1 * d) by (nonlinear_arith)
            requires
                q2 < q1,
                0 <= d,
        ;
    }
}

} // verus!

verus! {

/// Writes every cell of the column-major `m × n` buffer `c` once, cell `(i, j)`
/// with what `cell(i, j)` returns.
pub(crate) fn fill_column_major<T: Copy, V: Fn(usize, usize) -> T>(
    c: &mut [T],
    m: usize,
    n: usize,
    cell: V,
)
    requires
        old(c)@.len() == m * n,
        forall|i: usize, j: usize| i < m && j < n ==> #[trigger] cell.requires((i, j)),
    ensures
        final(c)@.len() == m * n,
        forall|i: int, j: int|
            0 <= i < m && 0 <= j < n ==> cell.ensures(
                (i as usize, j as usize),
                #[trigger] final(c)@[col_major(m as int, i, j)],
            ),
{
    let len = c.len();
    assert(m * n == len);
    let cv = MatrixView::column_major(m, n);
    let mut i: usize = 0;
    while i < m
        invariant
            i <= m,
            c@.len() == m * n,
            cv.wf(),
            cv.rows == m,
            cv.cols == n,
            forall|r: int, s: int| #[trigger] cv.spec_offset(r, s) == col_major(m as int, r, s),
            forall|i: usize, j: usize| i < m && j < n ==> #[trigger] cell.requires((i, j)),
            forall|p: int, q: int|
                0 <= p < i && 0 <= q < n ==> cell.ensures(
                    (p as usize, q as usize),
                    #[trigger] c@[col_major(m as int, p, q)],
                ),
        decreases m - i,
    {
        let mut j: usize = 0;
        while j < n
            invariant
                i < m,
                j <= n,
                c@.len() == m * n,
                cv.wf(),
                cv.rows == m,
                cv.cols == n,
                forall|r: int, s: int| #[trigger] cv.spec_offset(r, s) == col_major(m as int, r, s),
                forall|i: usize, j: usize| i < m && j < n ==> #[trigger] cell.requires((i, j)),
                forall|p: int, q: int|
                    0 <= p < m && 0 <= q < n && (p < i || (p == i && q < j)) ==> cell.ensures(
                        (p as usize, q as usize),
                        #[trigger] c@[col_major(m as int, p, q)],
                    ),
            decreases n - j,
        {
            let v = cell(i, j);
            let o = cv.offset(i, j);
            let ghost prev = c@;
            c[o] = v;
            assert forall|p: int, q: int|
                0 <= p < m && 0 <= q < n && (p < i || (p == i && q < j + 1)) implies cell.ensures(
                    (p as usize, q as usize),
                    #[trigger] c@[col_major(m as int, p, q)],
                ) by {
                if p != i || q != j {
                    if cv.spec_offset(p, q) == cv.spec_offset(i as int, j as int) {
                        lemma_offset_injective(cv, p, q, i as int, j as int);
                    }
                    lemma_offset_in_bounds(cv, p, q);
                    assert(c@[col_major(m as int, p, q)] == prev[col_major(m as int, p, q)]);
                }
            }
            j = j + 1;
        }
        i = i + 1;
    }
}

} // verus!
