//! Least and greatest positions of a range at which a predicate holds.

use vstd::prelude::*;

verus! {

/// The least position in `from..to` at which `hit` holds, if there is one.
pub open spec fn first_in(from: int, to: int, hit: spec_fn(int) -> bool) -> Option<int>
    decreases to - from,
{
    if from >= to {
        None
    } else if hit(from) {
        Some(from)
    } else {
        first_in(from + 1, to, hit)
    }
}

/// The greatest position in `from..to` at which `hit` holds, if there is one.
pub open spec fn last_in(from: int, to: int, hit: spec_fn(int) -> bool) -> Option<int>
    decreases to - from,
{
    if from >= to {
        None
    } else if hit(to - 1) {
        Some(to - 1)
    } else {
        last_in(from, to - 1, hit)
    }
}

/// `first_in` returns a hit that no hit precedes, and `None` only if the
/// range holds no hit.
pub proof fn lemma_first_in(from: int, to: int, hit: spec_fn(int) -> bool)
    ensures
        match first_in(from, to, hit) {
            Some(at) => from <= at < to && hit(at) && forall|j: int| from <= j < at ==> !#[trigger] hit(j),
            None => forall|j: int| from <= j < to ==> !#[trigger] hit(j),
        },
    decreases to - from,
{
    if from < to && !hit(from) {
        lemma_first_in(from + 1, to, hit);
    }
}

/// `last_in` returns a hit that no hit follows, and `None` only if the
/// range holds no hit.
pub proof fn lemma_last_in(from: int, to: int, hit: spec_fn(int) -> bool)
    ensures
        match last_in(from, to, hit) {
            Some(at) => from <= at < to && hit(at) && forall|j: int| at < j < to ==> !#[trigger] hit(j),
            None => forall|j: int| from <= j < to ==> !#[trigger] hit(j),
        },
    decreases to - from,
{
    if from < to && !hit(to - 1) {
        lemma_last_in(from, to - 1, hit);
    }
}

/// A hit that no hit precedes is the one `first_in` returns.
pub proof fn lemma_first_in_is(from: int, to: int, hit: spec_fn(int) -> bool, at: int)
    requires
        from <= at < to,
        hit(at),
        forall|j: int| from <= j < at ==> !#[trigger] hit(j),
    ensures
        first_in(from, to, hit) == Some(at),
{
    lemma_first_in(from, to, hit);
}

/// A hit that no hit follows is the one `last_in` returns.
pub proof fn lemma_last_in_is(from: int, to: int, hit: spec_fn(int) -> bool, at: int)
    requires
        from <= at < to,
        hit(at),
        forall|j: int| at < j < to ==> !#[trigger] hit(j),
    ensures
        last_in(from, to, hit) == Some(at),
{
    lemma_last_in(from, to, hit);
}

} // verus!
