//! The direct kernel: one row of the product per unit of parallel work.
use crate::dot::{dot_from, dot_range, operands_fit};
use crate::layout::{col_major, fill_column_major, MatrixView};
use crate::parallel::par_map_range;
use crate::scalar::is_function3;
use libc::c_int;
use vstd::prelude::*;

verus! {

/// Cell `(i, j)` of the product as the direct kernel computes it: starting
/// from `zero`, multiply-add `A[i, l] * B[l, j]` for `l = 0, 1, ..., k - 1`.
pub open spec fn direct_cell<T, F: Fn(T, T, T) -> T>(
    f: F,
    zero: T,
    a: Seq<T>,
    b: Seq<T>,
    m: int,
    k: int,
    i: int,
    j: int,
) -> T {
    dot_from(f, zero, a, b, m, k, i, j, 0, k)
}

/// Row `i` of the product: its `bv.cols` cells, in column order.
fn direct_row<T: Copy, F: Fn(T, T, T) -> T>(
    a: &[T],
    b: &[T],
    av: MatrixView,
    bv: MatrixView,
    i: usize,
    zero: T,
    f: &F,
) -> (row: Vec<T>)
    requires
        is_function3(*f),
        operands_fit(a@, b@, av, bv),
        i < av.rows,
    ensures
        row@.len() == bv.cols,
        forall|j: int|
            0 <= j < bv.cols ==> #[trigger] row@[j] == direct_cell(
                *f,
                zero,
                a@,
                b@,
                av.rows as int,
                av.cols as int,
                i as int,
                j,
            ),
{
    let mut row: Vec<T> = Vec::new();
    let mut j: usize = 0;
    while j < bv.cols
        invariant
            is_function3(*f),
            operands_fit(a@, b@, av, bv),
            i < av.rows,
            j <= bv.cols,
            row@.len() == j,
            forall|p: int|
                0 <= p < j ==> #[trigger] row@[p] == direct_cell(
                    *f,
                    zero,
                    a@,
                    b@,
                    av.rows as int,
                    av.cols as int,
                    i as int,
                    p,
                ),
        decreases bv.cols - j,
    {
        let s = dot_range(a, b, av, bv, i, j, 0, av.cols, zero, f);
        row.push(s);
        j = j + 1;
    }
    row
}

/// Multiplies the column-major `m × k` matrix `a` by the column-major `k × n`
/// matrix `b` into the column-major `m × n` buffer `c`.
///
/// The rows of the product are computed in parallel, each as a plain sequential
/// sum in increasing `l`; every cell of `c` is then written once.
///
/// `mul_add(acc, x, y)` stands for `acc + x * y` (for `f64`, the closure
/// `|acc, x, y| acc + x * y`); it must accept any arguments and be a function
/// of them, as plain arithmetic is.
pub fn rust_mm_optimized<T, F>(
    a: &[T],
    b: &[T],
    c: &mut [T],
    m: c_int,
    k: c_int,
    n: c_int,
    zero: T,
    mul_add: F,
) where T: Copy + Send + Sync, F: Fn(T, T, T) -> T + Sync
    requires
        0 <= m,
        0 <= k,
        0 <= n,
        a@.len() == m * k,
        b@.len() == k * n,
        old(c)@.len() == m * n,
        is_function3(mul_add),
    ensures
        final(c)@.len() == m * n,
        forall|i: int, j: int|
            0 <= i < m && 0 <= j < n ==> #[trigger] final(c)@[col_major(m as int, i, j)]
                == direct_cell(mul_add, zero, a@, b@, m as int, k as int, i, j),
{
    let (m, k, n) = (m as usize, k as usize, n as usize);
    let a_len = a.len();
    let b_len = b.len();
    assert(k * m == a_len && n * k == b_len) by (nonlinear_arith)
        requires
            a_len == m * k,
            b_len == k * n,
    ;
    // A column-major `m × k` buffer is a row-major `k × m` one read transposed.
    let av = MatrixView::row_major(k, m).t();
    let bv = MatrixView::row_major(n, k).t();
    let f = &mul_add;
    let rows = par_map_range(
        m,
        |i: usize| -> (row: Vec<T>)
            requires
                i < m,
            ensures
                row@.len() == n,
                forall|j: int|
                    0 <= j < n ==> #[trigger] row@[j] == direct_cell(
                        *f,
                        zero,
                        a@,
                        b@,
                        m as int,
                        k as int,
                        i as int,
                        j,
                    )
            { direct_row(a, b, av, bv, i, zero, f) },
    );
    fill_column_major(
        c,
        m,
        n,
        |i: usize, j: usize| -> (v: T)
            requires
                i < m,
                j < n,
            ensures
                v == rows@[i as int]@[j as int]
            { rows[i][j] },
    );
}

} // verus!
