//! Finding the first position at which a predicate holds.

use vstd::prelude::*;

verus! {

/// The least position in `start..end` at which `holds` is true, if there is one.
pub open spec fn first_from(holds: spec_fn(int) -> bool, start: int, end: int) -> Option<int>
    decreases end - start,
{
    if start >= end {
        None
    } else if holds(start) {
        Some(start)
    } else {
        first_from(holds, start + 1, end)
    }
}

/// `first_from` returns a position at which the predicate holds and before
/// which it does not, and returns nothing only if it holds nowhere.
pub proof fn lemma_first_from(holds: spec_fn(int) -> bool, start: int, end: int)
    ensures
        match first_from(holds, start, end) {
            Some(i) => start <= i < end && holds(i) && forall|j: int|
                start <= j < i ==> !#[trigger] holds(j),
            None => forall|j: int| start <= j < end ==> !#[trigger] holds(j),
        },
    decreases end - start,
{
    if start < end && !holds(start) {
        lemma_first_from(holds, start + 1, end);
    }
}

/// A position at which the predicate holds, and before which it does not, is
/// the one that `first_from` returns.
pub proof fn lemma_first_from_is(holds: spec_fn(int) -> bool, start: int, end: int, i: int)
    requires
        start <= i < end,
        holds(i),
        forall|j: int| start <= j < i ==> !#[trigger] holds(j),
    ensures
        first_from(holds, start, end) == Some(i),
    decreases i - start,
{
    if start < i {
        lemma_first_from_is(holds, start + 1, end, i);
    }
}

/// Where the predicate holds nowhere, `first_from` returns nothing.
pub proof fn lemma_first_from_none(holds: spec_fn(int) -> bool, start: int, end: int)
    requires
        forall|j: int| start <= j < end ==> !#[trigger] holds(j),
    ensures
        first_from(holds, start, end) is None,
    decreases end - start,
{
    if start < end {
        lemma_first_from_none(holds, start + 1, end);
    }
}

} // verus!
