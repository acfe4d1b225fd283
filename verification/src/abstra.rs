//! Container-independent abstractions.

use vstd::prelude::*;

verus! {

/// Containers that can produce a new, logically-empty sibling. For
/// range- or size-bound containers the sibling keeps the same constraints or
/// capacity; for hash-backed containers it is simply empty.
pub trait NewEmptyLike: Sized {
    /// Whether this instance's form permits a detached empty sibling.
    spec fn can_new_empty(&self) -> bool;

    /// A new, logically-empty container of the same form.
    fn new_empty_like(&self) -> (r: Self)
        requires
            self.can_new_empty(),
    ;
}

} // verus!
