//! What the drivers ask of `Clone`.

use vstd::prelude::*;

verus! {

/// Cloning a `T` yields a value with the same view as the value cloned.
///
/// The drivers keep copies of configurations, operations, snapshots and states;
/// this is what makes a copy stand for what it was made from.
pub open spec fn clone_keeps_view<T: Clone + View>() -> bool {
    forall|a: T, b: T| #[trigger] cloned(a, b) ==> a@ == b@
}

} // verus!
