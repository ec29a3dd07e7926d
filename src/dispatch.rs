//! The size-based choice between the two kernels.
use crate::blocked::{blocked_cell, rust_mm_blocked};
use crate::direct::{direct_cell, rust_mm_optimized};
use crate::layout::col_major;
use crate::scalar::{is_function2, is_function3};
use libc::c_int;
use vstd::prelude::*;

verus! {

/// Largest dimension for which the direct kernel is chosen.
pub const THRESHOLD: c_int = 512;

/// The two kernels.
#[derive(Clone, Copy, Debug, PartialEq, Eq, Structural)]
pub enum Kernel {
    Direct,
    Blocked,
}

/// All three dimensions are at most `THRESHOLD`.
pub open spec fn is_small(m: int, k: int, n: int) -> bool {
    m <= THRESHOLD && k <= THRESHOLD && n <= THRESHOLD
}

/// The kernel for an `m × k` by `k × n` product: the direct one when every
/// dimension is at most `THRESHOLD`, the blocked one otherwise.
pub fn select_kernel(m: c_int, k: c_int, n: c_int) -> (r: Kernel)
    ensures
        r == (if is_small(m as int, k as int, n as int) {
            Kernel::Direct
        } else {
            Kernel::Blocked
        }),
{
    if m <= THRESHOLD && k <= THRESHOLD && n <= THRESHOLD {
        Kernel::Direct
    } else {
        Kernel::Blocked
    }
}

/// Multiplies `a` by `b` into `c` with the kernel that `select_kernel` picks,
/// passing the call on unchanged.
pub fn rust_mm_auto<T, F, G>(
    a: &[T],
    b: &[T],
    c: &mut [T],
    m: c_int,
    k: c_int,
    n: c_int,
    zero: T,
    mul_add: F,
    add: G,
) where T: Copy + Send + Sync, F: Fn(T, T, T) -> T + Sync, G: Fn(T, T) -> T
    requires
        0 <= m,
        0 <= k,
        0 <= n,
        a@.len() == m * k,
        b@.len() == k * n,
        old(c)@.len() == m * n,
        is_function3(mul_add),
        is_function2(add),
    ensures
        final(c)@.len() == m * n,
        forall|i: int, j: int|
            0 <= i < m && 0 <= j < n ==> #[trigger] final(c)@[col_major(m as int, i, j)] == if is_small(
                m as int,
                k as int,
                n as int,
            ) {
                direct_cell(mul_add, zero, a@, b@, m as int, k as int, i, j)
            } else {
                blocked_cell(mul_add, add, zero, a@, b@, m as int, k as int, i, j)
            },
{
    match select_kernel(m, k, n) {
        Kernel::Direct => rust_mm_optimized(a, b, c, m, k, n, zero, mul_add),
        Kernel::Blocked => rust_mm_blocked(a, b, c, m, k, n, zero, mul_add, add),
    }
}

} // verus!
