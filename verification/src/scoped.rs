//! Running a function within a scope.

use vstd::prelude::*;

verus! {

/// The scope that `scope` hands to the function it runs.
pub struct Scope;

/// Runs `f` on a scope and returns what `f` returns.
pub fn scope<F, R>(f: F) -> (r: R) where F: FnOnce(&Scope) -> R
    requires
        f.requires((&Scope,)),
    ensures
        f.ensures((&Scope,), r),
{
    f(&Scope)
}

} // verus!
