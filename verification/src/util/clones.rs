//! What is known of clones.

use vstd::prelude::*;

verus! {

/// A clone of a value of this type is the value itself.
pub open spec fn has_equal_clones<T: Clone>() -> bool {
    forall|value: T, copy: T| #[trigger] cloned(value, copy) ==> value == copy
}

} // verus!
