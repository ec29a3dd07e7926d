//! Properties that relate the kernels to one another.
use crate::blocked::{blocked_acc, blocked_cell, tile_start};
use crate::direct::direct_cell;
use crate::dot::dot_from;
use crate::layout::col_major;
use crate::scalar::{apply2, apply3};
use vstd::prelude::*;

verus! {

/// The arithmetic is exact: `zero` is an identity of the associative `add`,
/// and `mul_add(acc, x, y)` is `add(acc, mul_add(zero, x, y))`. Integer
/// arithmetic is exact in this sense; floating-point arithmetic is not.
pub open spec fn is_exact_sum<T, F: Fn(T, T, T) -> T, G: Fn(T, T) -> T>(
    mul_add: F,
    add: G,
    zero: T,
) -> bool {
    &&& forall|x: T| #[trigger] apply2(add, zero, x) == x
    &&& forall|x: T| #[trigger] apply2(add, x, zero) == x
    &&& forall|x: T, y: T, z: T|
        #[trigger] apply2(add, apply2(add, x, y), z) == apply2(add, x, apply2(add, y, z))
    &&& forall|acc: T, x: T, y: T|
        #[trigger] apply3(mul_add, acc, x, y) == apply2(add, acc, apply3(mul_add, zero, x, y))
}

/// With no depth (`k == 0`) every cell of either kernel's output is `zero`.
pub proof fn lemma_zero_depth<T, F: Fn(T, T, T) -> T, G: Fn(T, T) -> T>(
    mul_add: F,
    add: G,
    zero: T,
    a: Seq<T>,
    b: Seq<T>,
    m: int,
    i: int,
    j: int,
)
    ensures
        direct_cell(mul_add, zero, a, b, m, 0, i, j) == zero,
        blocked_cell(mul_add, add, zero, a, b, m, 0, i, j) == zero,
{
}

/// A sum started from `init` is `init` plus the same sum started from `zero`.
proof fn lemma_dot_shift<T, F: Fn(T, T, T) -> T, G: Fn(T, T) -> T>(
    f: F,
    g: G,
    zero: T,
    init: T,
    a: Seq<T>,
    b: Seq<T>,
    m: int,
    k: int,
    i: int,
    j: int,
    lo: int,
    hi: int,
)
    requires
        is_exact_sum(f, g, zero),
    ensures
        dot_from(f, init, a, b, m, k, i, j, lo, hi) == apply2(
            g,
            init,
            dot_from(f, zero, a, b, m, k, i, j, lo, hi),
        ),
    decreases hi - lo,
{
    if hi > lo {
        lemma_dot_shift(f, g, zero, init, a, b, m, k, i, j, lo, hi - 1);
        let d0 = dot_from(f, zero, a, b, m, k, i, j, lo, hi - 1);
        let x = a[col_major(m, i, hi - 1)];
        let y = b[col_major(k, hi - 1, j)];
        let p = apply3(f, zero, x, y);
        let di = dot_from(f, init, a, b, m, k, i, j, lo, hi - 1);
        assert(apply3(f, di, x, y) == apply2(g, di, p));
        assert(apply3(f, d0, x, y) == apply2(g, d0, p));
        assert(apply2(g, apply2(g, init, d0), p) == apply2(g, init, apply2(g, d0, p)));
    }
}

/// A sum over `lo..hi` is the sum over `mid..hi` started from the sum over `lo..mid`.
proof fn lemma_dot_split<T, F: Fn(T, T, T) -> T>(
    f: F,
    init: T,
    a: Seq<T>,
    b: Seq<T>,
    m: int,
    k: int,
    i: int,
    j: int,
    lo: int,
    mid: int,
    hi: int,
)
    requires
        lo <= mid <= hi,
    ensures
        dot_from(f, init, a, b, m, k, i, j, lo, hi) == dot_from(
            f,
            dot_from(f, init, a, b, m, k, i, j, lo, mid),
            a,
            b,
            m,
            k,
            i,
            j,
            mid,
            hi,
        ),
    decreases hi - mid,
{
    if hi > mid {
        lemma_dot_split(f, init, a, b, m, k, i, j, lo, mid, hi - 1);
    }
}

/// After the depth tiles covering `0..d`, a blocked cell holds the plain sum over `0..d`.
proof fn lemma_blocked_acc_is_dot<T, F: Fn(T, T, T) -> T, G: Fn(T, T) -> T>(
    f: F,
    g: G,
    zero: T,
    a: Seq<T>,
    b: Seq<T>,
    m: int,
    k: int,
    i: int,
    j: int,
    d: int,
)
    requires
        is_exact_sum(f, g, zero),
        0 <= d,
    ensures
        blocked_acc(f, g, zero, a, b, m, k, i, j, d) == dot_from(f, zero, a, b, m, k, i, j, 0, d),
    decreases d,
{
    if d > 0 {
        let s = tile_start(d);
        assert(0 <= s < d);
        lemma_blocked_acc_is_dot(f, g, zero, a, b, m, k, i, j, s);
        let head = dot_from(f, zero, a, b, m, k, i, j, 0, s);
        lemma_dot_shift(f, g, zero, head, a, b, m, k, i, j, s, d);
        lemma_dot_split(f, zero, a, b, m, k, i, j, 0, s, d);
    }
}

/// With exact arithmetic the blocked and the direct kernel give every cell the
/// same value: tiling only regroups the sum.
pub proof fn lemma_kernels_agree_when_exact<T, F: Fn(T, T, T) -> T, G: Fn(T, T) -> T>(
    mul_add: F,
    add: G,
    zero: T,
    a: Seq<T>,
    b: Seq<T>,
    m: int,
    k: int,
    i: int,
    j: int,
)
    requires
        is_exact_sum(mul_add, add, zero),
        0 <= k,
    ensures
        blocked_cell(mul_add, add, zero, a, b, m, k, i, j) == direct_cell(mul_add, zero, a, b, m, k, i, j),
{
    lemma_blocked_acc_is_dot(mul_add, add, zero, a, b, m, k, i, j, k);
}

} // verus!
