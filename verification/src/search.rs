//! The first position at which something holds.

use vstd::prelude::*;

verus! {

/// Whether `index` is the least position below `len` at which `holds`.
pub open spec fn is_first(len: int, holds: spec_fn(int) -> bool, index: int) -> bool {
    &&& 0 <= index < len
    &&& holds(index)
    &&& forall|j: int| 0 <= j < index ==> !#[trigger] holds(j)
}

/// The least position below `len` at which `holds`, if there is one.
pub open spec fn first_where(len: int, holds: spec_fn(int) -> bool) -> Option<int> {
    if exists|i: int| 0 <= i < len && #[trigger] holds(i) {
        Some(choose|i: int| is_first(len, holds, i))
    } else {
        None
    }
}

proof fn lemma_least_exists(len: int, holds: spec_fn(int) -> bool, witness: int)
    requires
        0 <= witness < len,
        holds(witness),
    ensures
        exists|i: int| is_first(len, holds, i),
    decreases witness,
{
    if exists|j: int| 0 <= j < witness && #[trigger] holds(j) {
        let j = choose|j: int| 0 <= j < witness && #[trigger] holds(j);
        lemma_least_exists(len, holds, j);
    } else {
        assert(is_first(len, holds, witness));
    }
}

/// `first_where` gives the least position, and gives none only if there is
/// none.
pub proof fn lemma_first_where(len: int, holds: spec_fn(int) -> bool)
    ensures
        match first_where(len, holds) {
            Some(i) => is_first(len, holds, i),
            None => forall|i: int| 0 <= i < len ==> !#[trigger] holds(i),
        },
        forall|i: int| #[trigger] is_first(len, holds, i) ==> first_where(len, holds) == Some(i),
{
    if exists|i: int| 0 <= i < len && #[trigger] holds(i) {
        let w = choose|i: int| 0 <= i < len && #[trigger] holds(i);
        lemma_least_exists(len, holds, w);
        let first = choose|i: int| is_first(len, holds, i);
        assert forall|i: int| #[trigger] is_first(len, holds, i) implies i == first by {
            if i < first {
                assert(!holds(i));
            } else if first < i {
                assert(!holds(first));
            }
        }
    }
}

} // verus!
