//! The scalar arithmetic that a kernel is handed, seen as mathematical functions.
//!
//! A kernel takes its multiply-add and its add as closures. Their results are
//! named here through `call_ensures`; a closure that may be called on any
//! arguments and gives one result for each is a function, and the kernels'
//! contracts speak of that function.
use vstd::prelude::*;

verus! {

/// `f` may be called on any arguments and gives at most one result for each.
pub open spec fn is_function3<T, F: Fn(T, T, T) -> T>(f: F) -> bool {
    &&& forall|x: T, y: T, z: T| #[trigger] f.requires((x, y, z))
    &&& forall|x: T, y: T, z: T, r1: T, r2: T|
        #[trigger] f.ensures((x, y, z), r1) && #[trigger] f.ensures((x, y, z), r2) ==> r1 == r2
}

/// `f` may be called on any arguments and gives at most one result for each.
pub open spec fn is_function2<T, G: Fn(T, T) -> T>(g: G) -> bool {
    &&& forall|x: T, y: T| #[trigger] g.requires((x, y))
    &&& forall|x: T, y: T, r1: T, r2: T|
        #[trigger] g.ensures((x, y), r1) && #[trigger] g.ensures((x, y), r2) ==> r1 == r2
}

/// The result of `f(x, y, z)`.
pub open spec fn apply3<T, F: Fn(T, T, T) -> T>(f: F, x: T, y: T, z: T) -> T {
    choose|r: T| f.ensures((x, y, z), r)
}

/// The result of `g(x, y)`.
pub open spec fn apply2<T, G: Fn(T, T) -> T>(g: G, x: T, y: T) -> T {
    choose|r: T| g.ensures((x, y), r)
}

/// Calls the multiply-add `f` on `(acc, x, y)`.
pub(crate) fn call3<T, F: Fn(T, T, T) -> T>(f: &F, acc: T, x: T, y: T) -> (r: T)
    requires
        is_function3(*f),
    ensures
        r == apply3(*f, acc, x, y),
{
    let r = f(acc, x, y);
    assert(f.ensures((acc, x, y), r));
    r
}

/// Calls the add `g` on `(x, y)`.
pub(crate) fn call2<T, G: Fn(T, T) -> T>(g: &G, x: T, y: T) -> (r: T)
    requires
        is_function2(*g),
    ensures
        r == apply2(*g, x, y),
{
    let r = g(x, y);
    assert(g.ensures((x, y), r));
    r
}

} // verus!
