//! Fork-join over a range of indices, on rayon's thread pool.
use rayon::iter::{IndexedParallelIterator, IntoParallelIterator, ParallelIterator};
use vstd::prelude::*;

verus! {

/// Relies on rayon's `into_par_iter` over `0..count`, `map` and
/// `collect_into_vec`: `f` runs once for each index, on any worker thread, all
/// calls finish before the return, and the result of index `i` lands at
/// position `i`.
#[verifier::external_body]
pub(crate) fn par_map_range<R: Send, F: Fn(usize) -> R + Sync + Send>(count: usize, f: F) -> (r: Vec<R>)
    requires
        forall|i: usize| i < count ==> #[trigger] f.requires((i,)),
    ensures
        r@.len() == count,
        forall|i: int| 0 <= i < count ==> f.ensures((i as usize,), #[trigger] r@[i]),
{
    let mut out = Vec::new();
    (0..count).into_par_iter().map(f).collect_into_vec(&mut out);
    out
}

} // verus!
