//! Searching sequences for the first position that satisfies a condition.

use vstd::prelude::*;

verus! {

/// The first of the positions `0..length` at which `holds` is true.
pub open spec fn first_where(length: nat, holds: spec_fn(int) -> bool) -> Option<int> {
    if exists|i: int| 0 <= i < length && #[trigger] holds(i) {
        Some(
            choose|i: int|
                0 <= i < length && #[trigger] holds(i) && (forall|j: int|
                    0 <= j < i ==> !#[trigger] holds(j)),
        )
    } else {
        None
    }
}

/// A position that satisfies the condition while none before it does is the
/// first one.
pub proof fn lemma_first_where(length: nat, holds: spec_fn(int) -> bool, position: int)
    requires
        0 <= position < length,
        holds(position),
        forall|j: int| 0 <= j < position ==> !#[trigger] holds(j),
    ensures
        first_where(length, holds) == Some(position),
{
    let first = choose|i: int|
        0 <= i < length && #[trigger] holds(i) && (forall|j: int|
            0 <= j < i ==> !#[trigger] holds(j));
    assert(holds(first));
    if first < position {
        assert(!holds(first));
    }
    if position < first {
        assert(!holds(position));
    }
}

/// What [`first_where`] finds satisfies the condition, and nothing before it
/// does.
pub proof fn lemma_first_where_sound(length: nat, holds: spec_fn(int) -> bool)
    ensures
        match first_where(length, holds) {
            Some(position) => 0 <= position < length && holds(position) && forall|j: int|
                0 <= j < position ==> !#[trigger] holds(j),
            None => forall|i: int| 0 <= i < length ==> !#[trigger] holds(i),
        },
    decreases length,
{
    if exists|i: int| 0 <= i < length && #[trigger] holds(i) {
        let some = choose|i: int| 0 <= i < length && #[trigger] holds(i);
        lemma_least(holds, some);
        let least = choose|i: int|
            0 <= i <= some && #[trigger] holds(i) && (forall|j: int|
                0 <= j < i ==> !#[trigger] holds(j));
        lemma_first_where(length, holds, least);
    }
}

proof fn lemma_least(holds: spec_fn(int) -> bool, some: int)
    requires
        0 <= some,
        holds(some),
    ensures
        exists|i: int|
            0 <= i <= some && #[trigger] holds(i) && (forall|j: int|
                0 <= j < i ==> !#[trigger] holds(j)),
    decreases some,
{
    if exists|j: int| 0 <= j < some && #[trigger] holds(j) {
        let smaller = choose|j: int| 0 <= j < some && #[trigger] holds(j);
        lemma_least(holds, smaller);
    }
}

} // verus!
