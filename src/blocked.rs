//! The blocked kernel: the product computed tile by tile, for cache locality.
use crate::dot::{dot_from, dot_range, operands_fit};
use crate::layout::{
    col_major, fill_column_major, lemma_offset_in_bounds, lemma_offset_injective, row_major, MatrixView,
};
use crate::scalar::{apply2, call2, is_function2, is_function3};
use libc::c_int;
use vstd::prelude::*;

verus! {

/// Edge length of a tile, in every dimension.
pub const BLOCK_SIZE: usize = 64;

/// The first depth index of the tile that ends at `d` (for `d > 0`).
pub open spec fn tile_start(d: int) -> int {
    ((d - 1) / BLOCK_SIZE as int) * BLOCK_SIZE as int
}

/// Cell `(i, j)` once the depth tiles covering `0..d` have been added into it:
/// each tile's products are multiply-added from `zero`, and that partial sum
/// is added into the cell, tile after tile in increasing depth.
pub open spec fn blocked_acc<T, F: Fn(T, T, T) -> T, G: Fn(T, T) -> T>(
    f: F,
    g: G,
    zero: T,
    a: Seq<T>,
    b: Seq<T>,
    m: int,
    k: int,
    i: int,
    j: int,
    d: int,
) -> T
    decreases d,
{
    if d <= 0 {
        zero
    } else {
        let s = tile_start(d);
        apply2(g, blocked_acc(f, g, zero, a, b, m, k, i, j, s), dot_from(f, zero, a, b, m, k, i, j, s, d))
    }
}

/// Cell `(i, j)` of the product as the blocked kernel computes it.
pub open spec fn blocked_cell<T, F: Fn(T, T, T) -> T, G: Fn(T, T) -> T>(
    f: F,
    g: G,
    zero: T,
    a: Seq<T>,
    b: Seq<T>,
    m: int,
    k: int,
    i: int,
    j: int,
) -> T {
    blocked_acc(f, g, zero, a, b, m, k, i, j, k)
}

/// `(p, q)` lies in rows `i_lo..i_hi` and columns `j_lo..j_hi`.
pub open spec fn in_tile(p: int, q: int, i_lo: int, i_hi: int, j_lo: int, j_hi: int) -> bool {
    i_lo <= p < i_hi && j_lo <= q < j_hi
}

/// The end of the tile that starts at `start`, clipped to `len`.
fn tile_end(start: usize, len: usize) -> (e: usize)
    requires
        start < len,
    ensures
        e == if len - start > BLOCK_SIZE { start + BLOCK_SIZE } else { len as int },
{
    if len - start > BLOCK_SIZE {
        start + BLOCK_SIZE
    } else {
        len
    }
}

/// A tile that starts on a multiple of the edge length is the tile that ends at its end.
proof fn lemma_tile_start(s: int, e: int)
    requires
        0 <= s,
        s % (BLOCK_SIZE as int) == 0,
        s < e <= s + BLOCK_SIZE,
    ensures
        tile_start(e) == s,
{
    let t = s / BLOCK_SIZE as int;
    assert(s == t * 64);
    assert((e - 1) / 64 == t);
}

/// Adds into every cell `(i, j)` of the row-major `m × n` buffer `acc` that lies
/// in the tile the partial sum of depths `l_lo..l_hi`.
fn tile_pass<T: Copy, F: Fn(T, T, T) -> T, G: Fn(T, T) -> T>(
    acc: &mut Vec<T>,
    a: &[T],
    b: &[T],
    av: MatrixView,
    bv: MatrixView,
    i_lo: usize,
    i_hi: usize,
    j_lo: usize,
    j_hi: usize,
    l_lo: usize,
    l_hi: usize,
    zero: T,
    f: &F,
    g: &G,
)
    requires
        is_function3(*f),
        is_function2(*g),
        operands_fit(a@, b@, av, bv),
        old(acc)@.len() == av.rows * bv.cols,
        i_lo <= i_hi <= av.rows,
        j_lo <= j_hi <= bv.cols,
        l_lo <= l_hi <= av.cols,
    ensures
        final(acc)@.len() == old(acc)@.len(),
        forall|p: int, q: int|
            0 <= p < av.rows && 0 <= q < bv.cols ==> #[trigger] final(acc)@[row_major(
                bv.cols as int,
                p,
                q,
            )] == if in_tile(p, q, i_lo as int, i_hi as int, j_lo as int, j_hi as int) {
                apply2(
                    *g,
                    old(acc)@[row_major(bv.cols as int, p, q)],
                    dot_from(*f, zero, a@, b@, av.rows as int, av.cols as int, p, q, l_lo as int, l_hi as int),
                )
            } else {
                old(acc)@[row_major(bv.cols as int, p, q)]
            },
{
    let (m, n) = (av.rows, bv.cols);
    let len = acc.len();
    assert(m * n == len);
    let rv = MatrixView::row_major(m, n);
    let ghost a0 = acc@;
    let mut i = i_lo;
    while i < i_hi
        invariant
            is_function3(*f),
            is_function2(*g),
            operands_fit(a@, b@, av, bv),
            acc@.len() == m * n,
            m == av.rows,
            n == bv.cols,
            i_lo <= i <= i_hi <= m,
            j_lo <= j_hi <= n,
            l_lo <= l_hi <= av.cols,
            rv.wf(),
            rv.rows == m,
            rv.cols == n,
            forall|r: int, c: int| #[trigger] rv.spec_offset(r, c) == row_major(n as int, r, c),
            forall|p: int, q: int|
                0 <= p < m && 0 <= q < n ==> #[trigger] acc@[row_major(n as int, p, q)] == if in_tile(
                    p,
                    q,
                    i_lo as int,
                    i as int,
                    j_lo as int,
                    j_hi as int,
                ) {
                    apply2(
                        *g,
                        a0[row_major(n as int, p, q)],
                        dot_from(*f, zero, a@, b@, m as int, av.cols as int, p, q, l_lo as int, l_hi as int),
                    )
                } else {
                    a0[row_major(n as int, p, q)]
                },
        decreases i_hi - i,
    {
        let mut j = j_lo;
        while j < j_hi
            invariant
                is_function3(*f),
                is_function2(*g),
                operands_fit(a@, b@, av, bv),
                acc@.len() == m * n,
                m == av.rows,
                n == bv.cols,
                i_lo <= i < i_hi <= m,
                j_lo <= j <= j_hi <= n,
                l_lo <= l_hi <= av.cols,
                rv.wf(),
                rv.rows == m,
                rv.cols == n,
                forall|r: int, c: int| #[trigger] rv.spec_offset(r, c) == row_major(n as int, r, c),
                forall|p: int, q: int|
                    0 <= p < m && 0 <= q < n ==> #[trigger] acc@[row_major(n as int, p, q)] == if in_tile(
                        p,
                        q,
                        i_lo as int,
                        i as int,
                        j_lo as int,
                        j_hi as int,
                    ) || (p == i && j_lo <= q < j) {
                        apply2(
                            *g,
                            a0[row_major(n as int, p, q)],
                            dot_from(*f, zero, a@, b@, m as int, av.cols as int, p, q, l_lo as int, l_hi as int),
                        )
                    } else {
                        a0[row_major(n as int, p, q)]
                    },
            decreases j_hi - j,
        {
            let s = dot_range(a, b, av, bv, i, j, l_lo, l_hi, zero, f);
            let o = rv.offset(i, j);
            let v = call2(g, acc[o], s);
            let ghost prev = acc@;
            acc.set(o, v);
            assert forall|p: int, q: int| 0 <= p < m && 0 <= q < n implies #[trigger] acc@[row_major(
                n as int,
                p,
                q,
            )] == prev[row_major(n as int, p, q)] || (p == i && q == j) by {
                if p != i || q != j {
                    lemma_offset_in_bounds(rv, p, q);
                    if rv.spec_offset(p, q) == rv.spec_offset(i as int, j as int) {
                        lemma_offset_injective(rv, p, q, i as int, j as int);
                    }
                }
            }
            j = j + 1;
        }
        i = i + 1;
    }
}

/// Computes the cells of one output tile, which must hold `zero`: its depth
/// tiles are added in one after another.
fn block_tile<T: Copy, F: Fn(T, T, T) -> T, G: Fn(T, T) -> T>(
    acc: &mut Vec<T>,
    a: &[T],
    b: &[T],
    av: MatrixView,
    bv: MatrixView,
    i_lo: usize,
    i_hi: usize,
    j_lo: usize,
    j_hi: usize,
    zero: T,
    f: &F,
    g: &G,
)
    requires
        is_function3(*f),
        is_function2(*g),
        operands_fit(a@, b@, av, bv),
        old(acc)@.len() == av.rows * bv.cols,
        i_lo <= i_hi <= av.rows,
        j_lo <= j_hi <= bv.cols,
        forall|p: int, q: int|
            in_tile(p, q, i_lo as int, i_hi as int, j_lo as int, j_hi as int) ==> #[trigger] old(
                acc,
            )@[row_major(bv.cols as int, p, q)] == zero,
    ensures
        final(acc)@.len() == old(acc)@.len(),
        forall|p: int, q: int|
            0 <= p < av.rows && 0 <= q < bv.cols ==> #[trigger] final(acc)@[row_major(
                bv.cols as int,
                p,
                q,
            )] == if in_tile(p, q, i_lo as int, i_hi as int, j_lo as int, j_hi as int) {
                blocked_cell(*f, *g, zero, a@, b@, av.rows as int, av.cols as int, p, q)
            } else {
                old(acc)@[row_major(bv.cols as int, p, q)]
            },
{
    let ghost (m, k, n) = (av.rows as int, av.cols as int, bv.cols as int);
    let ghost a0 = acc@;
    let mut kb: usize = 0;
    while kb < av.cols
        invariant
            is_function3(*f),
            is_function2(*g),
            operands_fit(a@, b@, av, bv),
            m == av.rows,
            k == av.cols,
            n == bv.cols,
            acc@.len() == m * n,
            i_lo <= i_hi <= m,
            j_lo <= j_hi <= n,
            kb <= k,
            kb % BLOCK_SIZE == 0 || kb == k,
            forall|p: int, q: int|
                0 <= p < m && 0 <= q < n ==> #[trigger] acc@[row_major(n, p, q)] == if in_tile(
                    p,
                    q,
                    i_lo as int,
                    i_hi as int,
                    j_lo as int,
                    j_hi as int,
                ) {
                    blocked_acc(*f, *g, zero, a@, b@, m, k, p, q, kb as int)
                } else {
                    a0[row_major(n, p, q)]
                },
        decreases k - kb,
    {
        let ke = tile_end(kb, av.cols);
        let ghost prev = acc@;
        tile_pass(acc, a, b, av, bv, i_lo, i_hi, j_lo, j_hi, kb, ke, zero, f, g);
        proof {
            lemma_tile_start(kb as int, ke as int);
            assert forall|p: int, q: int|
                in_tile(p, q, i_lo as int, i_hi as int, j_lo as int, j_hi as int) implies #[trigger] blocked_acc(
                    *f,
                    *g,
                    zero,
                    a@,
                    b@,
                    m,
                    k,
                    p,
                    q,
                    ke as int,
                ) == apply2(
                    *g,
                    blocked_acc(*f, *g, zero, a@, b@, m, k, p, q, kb as int),
                    dot_from(*f, zero, a@, b@, m, k, p, q, kb as int, ke as int),
                ) by {}
            assert forall|p: int, q: int|
                0 <= p < m && 0 <= q < n && in_tile(
                    p,
                    q,
                    i_lo as int,
                    i_hi as int,
                    j_lo as int,
                    j_hi as int,
                ) implies #[trigger] acc@[row_major(n, p, q)] == blocked_acc(
                    *f,
                    *g,
                    zero,
                    a@,
                    b@,
                    m,
                    k,
                    p,
                    q,
                    ke as int,
                ) by {
                assert(prev[row_major(n, p, q)] == blocked_acc(*f, *g, zero, a@, b@, m, k, p, q, kb as int));
            }
        }
        kb = ke;
    }
}

/// Computes rows `i_lo..i_hi` of the product, which must hold `zero`, one
/// column tile after another.
fn block_row_tile<T: Copy, F: Fn(T, T, T) -> T, G: Fn(T, T) -> T>(
    acc: &mut Vec<T>,
    a: &[T],
    b: &[T],
    av: MatrixView,
    bv: MatrixView,
    i_lo: usize,
    i_hi: usize,
    zero: T,
    f: &F,
    g: &G,
)
    requires
        is_function3(*f),
        is_function2(*g),
        operands_fit(a@, b@, av, bv),
        old(acc)@.len() == av.rows * bv.cols,
        i_lo <= i_hi <= av.rows,
        forall|p: int, q: int|
            i_lo <= p < i_hi && 0 <= q < bv.cols ==> #[trigger] old(acc)@[row_major(
                bv.cols as int,
                p,
                q,
            )] == zero,
    ensures
        final(acc)@.len() == old(acc)@.len(),
        forall|p: int, q: int|
            0 <= p < av.rows && 0 <= q < bv.cols ==> #[trigger] final(acc)@[row_major(
                bv.cols as int,
                p,
                q,
            )] == if i_lo <= p < i_hi {
                blocked_cell(*f, *g, zero, a@, b@, av.rows as int, av.cols as int, p, q)
            } else {
                old(acc)@[row_major(bv.cols as int, p, q)]
            },
{
    let ghost (m, k, n) = (av.rows as int, av.cols as int, bv.cols as int);
    let ghost a0 = acc@;
    let mut jb: usize = 0;
    while jb < bv.cols
        invariant
            is_function3(*f),
            is_function2(*g),
            operands_fit(a@, b@, av, bv),
            m == av.rows,
            k == av.cols,
            n == bv.cols,
            acc@.len() == m * n,
            i_lo <= i_hi <= m,
            jb <= n,
            forall|p: int, q: int|
                0 <= p < m && 0 <= q < n ==> #[trigger] acc@[row_major(n, p, q)] == if i_lo <= p
                    < i_hi {
                    if q < jb {
                        blocked_cell(*f, *g, zero, a@, b@, m, k, p, q)
                    } else {
                        zero
                    }
                } else {
                    a0[row_major(n, p, q)]
                },
        decreases n - jb,
    {
        let je = tile_end(jb, bv.cols);
        block_tile(acc, a, b, av, bv, i_lo, i_hi, jb, je, zero, f, g);
        jb = je;
    }
}

/// Multiplies the column-major `m × k` matrix `a` by the column-major `k × n`
/// matrix `b` into the column-major `m × n` buffer `c`.
///
/// Works in `BLOCK_SIZE` tiles, sequentially: row tiles, then column tiles,
/// then depth tiles. Within a depth tile each cell's products are
/// multiply-added from `zero`, and that partial sum is added into the cell.
///
/// `mul_add(acc, x, y)` stands for `acc + x * y` and `add(s, t)` for `s + t`;
/// both must accept any arguments and be functions of them.
pub fn rust_mm_blocked<T, F, G>(
    a: &[T],
    b: &[T],
    c: &mut [T],
    m: c_int,
    k: c_int,
    n: c_int,
    zero: T,
    mul_add: F,
    add: G,
) where T: Copy, F: Fn(T, T, T) -> T, G: Fn(T, T) -> T
    requires
        0 <= m,
        0 <= k,
        0 <= n,
        a@.len() == m * k,
        b@.len() == k * n,
        old(c)@.len() == m * n,
        is_function3(mul_add),
        is_function2(add),
    ensures
        final(c)@.len() == m * n,
        forall|i: int, j: int|
            0 <= i < m && 0 <= j < n ==> #[trigger] final(c)@[col_major(m as int, i, j)]
                == blocked_cell(mul_add, add, zero, a@, b@, m as int, k as int, i, j),
{
    let (m, k, n) = (m as usize, k as usize, n as usize);
    let a_len = a.len();
    let b_len = b.len();
    let c_len = c.len();
    assert(k * m == a_len && n * k == b_len) by (nonlinear_arith)
        requires
            a_len == m * k,
            b_len == k * n,
    ;
    // A column-major `m × k` buffer is a row-major `k × m` one read transposed.
    let av = MatrixView::row_major(k, m).t();
    let bv = MatrixView::row_major(n, k).t();
    let mut acc: Vec<T> = Vec::new();
    while acc.len() < c_len
        invariant
            acc@.len() <= c_len,
            forall|p: int| 0 <= p < acc@.len() ==> #[trigger] acc@[p] == zero,
        decreases c_len - acc@.len(),
    {
        acc.push(zero);
    }
    let rv = MatrixView::row_major(m, n);
    assert forall|p: int, q: int| 0 <= p < m && 0 <= q < n implies #[trigger] acc@[row_major(
        n as int,
        p,
        q,
    )] == zero by {
        lemma_offset_in_bounds(rv, p, q);
    }
    let mut ib: usize = 0;
    while ib < m
        invariant
            is_function3(mul_add),
            is_function2(add),
            operands_fit(a@, b@, av, bv),
            av.rows == m,
            av.cols == k,
            bv.cols == n,
            acc@.len() == m * n,
            ib <= m,
            forall|p: int, q: int|
                0 <= p < m && 0 <= q < n ==> #[trigger] acc@[row_major(n as int, p, q)] == if p < ib {
                    blocked_cell(mul_add, add, zero, a@, b@, m as int, k as int, p, q)
                } else {
                    zero
                },
        decreases m - ib,
    {
        let ie = tile_end(ib, m);
        block_row_tile(&mut acc, a, b, av, bv, ib, ie, zero, &mul_add, &add);
        ib = ie;
    }
    let ghost cells = acc@;
    fill_column_major(
        c,
        m,
        n,
        |i: usize, j: usize| -> (v: T)
            requires
                i < m,
                j < n,
            ensures
                v == cells[row_major(n as int, i as int, j as int)]
            { acc[rv.offset(i, j)] },
    );
}

} // verus!
