//! Finding the first position at which something holds.

use vstd::prelude::*;

verus! {

/// The first position from `from` up to, but not including, `to` at which `holds` is true.
pub open spec fn first_from(holds: spec_fn(int) -> bool, from: int, to: int) -> Option<int>
    decreases to - from,
{
    if from >= to {
        None
    } else if holds(from) {
        Some(from)
    } else {
        first_from(holds, from + 1, to)
    }
}

/// A search may skip the positions at which nothing holds.
pub proof fn lemma_first_from_skips(holds: spec_fn(int) -> bool, from: int, mid: int, to: int)
    requires
        from <= mid,
        forall|j: int| from <= j < mid && j < to ==> !#[trigger] holds(j),
    ensures
        first_from(holds, from, to) == first_from(holds, mid, to),
    decreases mid - from,
{
    if from < mid && from < to {
        lemma_first_from_skips(holds, from + 1, mid, to);
    } else if from < mid {
        assert(first_from(holds, mid, to) is None);
    }
}

/// What a search finds is the first position at which `holds` is true, and
/// it finds nothing only where there is none.
pub proof fn lemma_first_from_is_first(holds: spec_fn(int) -> bool, from: int, to: int)
    ensures
        match first_from(holds, from, to) {
            Some(i) => from <= i < to && holds(i) && forall|j: int|
                from <= j < i ==> !#[trigger] holds(j),
            None => forall|j: int| from <= j < to ==> !#[trigger] holds(j),
        },
    decreases to - from,
{
    if from < to && !holds(from) {
        lemma_first_from_is_first(holds, from + 1, to);
    }
}

} // verus!
