//! The sum that each output cell holds, and the loop that computes it.
use crate::layout::{col_major, MatrixView};
use crate::scalar::{apply3, call3, is_function3};
use vstd::prelude::*;

verus! {

/// Starting from `init`, multiply-add `A[i, l] * B[l, j]` for `l` in `lo..hi`,
/// in increasing `l`. `A` is `m × k` and `B` is `k × n`, both column-major.
pub open spec fn dot_from<T, F: Fn(T, T, T) -> T>(
    f: F,
    init: T,
    a: Seq<T>,
    b: Seq<T>,
    m: int,
    k: int,
    i: int,
    j: int,
    lo: int,
    hi: int,
) -> T
    decreases hi - lo,
{
    if hi <= lo {
        init
    } else {
        apply3(
            f,
            dot_from(f, init, a, b, m, k, i, j, lo, hi - 1),
            a[col_major(m, i, hi - 1)],
            b[col_major(k, hi - 1, j)],
        )
    }
}

/// `av` reads `a` as an `m × k` column-major matrix and `bv` reads `b` as a
/// `k × n` column-major matrix.
pub open spec fn operands_fit<T>(a: Seq<T>, b: Seq<T>, av: MatrixView, bv: MatrixView) -> bool {
    &&& av.wf()
    &&& bv.wf()
    &&& av.rows * av.cols == a.len()
    &&& bv.rows * bv.cols == b.len()
    &&& av.cols == bv.rows
    &&& forall|r: int, c: int| #[trigger] av.spec_offset(r, c) == col_major(av.rows as int, r, c)
    &&& forall|r: int, c: int| #[trigger] bv.spec_offset(r, c) == col_major(bv.rows as int, r, c)
}

/// Computes `dot_from(f, init, a, b, m, k, i, j, lo, hi)` through the views
/// `av` of `A` and `bv` of `B`.
pub(crate) fn dot_range<T: Copy, F: Fn(T, T, T) -> T>(
    a: &[T],
    b: &[T],
    av: MatrixView,
    bv: MatrixView,
    i: usize,
    j: usize,
    lo: usize,
    hi: usize,
    init: T,
    f: &F,
) -> (r: T)
    requires
        is_function3(*f),
        operands_fit(a@, b@, av, bv),
        i < av.rows,
        j < bv.cols,
        lo <= hi <= av.cols,
    ensures
        r == dot_from(*f, init, a@, b@, av.rows as int, av.cols as int, i as int, j as int, lo as int, hi as int),
{
    let mut acc = init;
    let mut l = lo;
    while l < hi
        invariant
            lo <= l <= hi,
            hi <= av.cols,
            is_function3(*f),
            operands_fit(a@, b@, av, bv),
            i < av.rows,
            j < bv.cols,
            acc == dot_from(*f, init, a@, b@, av.rows as int, av.cols as int, i as int, j as int, lo as int, l as int),
        decreases hi - l,
    {
        let x = a[av.offset(i, l)];
        let y = b[bv.offset(l, j)];
        acc = call3(f, acc, x, y);
        l = l + 1;
    }
    acc
}

} // verus!
