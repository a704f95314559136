//! Interning: one value handle per type tag and key.

use vstd::prelude::*;
use crate::handles::{TypeTag, ValueHandle};
use crate::table::{alias_free, canonical, stored, unused};

verus! {

/// The key under which a value of the type tagged `tag` is interned.
pub open spec fn intern_key(tag: TypeTag, key: Seq<u8>) -> (u64, Seq<u8>) {
    (tag.0, key)
}

/// The handle of an interning request, from what the map's insert-or-update
/// step recorded: `made` where the fallback ran, else the entry it `found`.
pub fn settled(made: Option<u64>, found: Option<u64>) -> (handle: ValueHandle)
    requires
        made is Some || found is Some,
    ensures
        handle.0 == (match made {
            Some(id) => id,
            None => found->0,
        }),
{
    match made {
        Some(id) => ValueHandle(id),
        None => ValueHandle(found.unwrap()),
    }
}

/// A run of requests on one key, one after another: request `i` found the
/// map as `states[i]`, got `handles[i]` and left the map as `states[i + 1]`.
pub open spec fn interns_in_turn(
    states: Seq<Map<(u64, Seq<u8>), u64>>,
    key: (u64, Seq<u8>),
    handles: Seq<ValueHandle>,
) -> bool {
    &&& states.len() == handles.len() + 1
    &&& forall|i: int|
        0 <= i < handles.len() ==> canonical(
            states[i],
            key,
            (#[trigger] handles[i]).0,
            states[i + 1],
        )
}

proof fn lemma_handle_stays(
    states: Seq<Map<(u64, Seq<u8>), u64>>,
    key: (u64, Seq<u8>),
    handles: Seq<ValueHandle>,
    j: int,
)
    requires
        interns_in_turn(states, key, handles),
        1 <= j <= handles.len(),
    ensures
        stored(states[j], key) == Some(handles[0].0),
        states[j] == states[1],
    decreases j,
{
    if j == 1 {
        assert(canonical(states[0], key, handles[0].0, states[0int + 1]));
    } else {
        lemma_handle_stays(states, key, handles, j - 1);
        assert(canonical(states[j - 1], key, handles[j - 1].0, states[j - 1 + 1]));
    }
}

/// However many requests are made with one type tag and one key, in whatever
/// order they reach the map: all of them get the handle of the first, and
/// every one after the first finds the key present, so that its fallback does
/// not run and the map stays as the first left it.
pub proof fn lemma_requests_with_one_key_share_one_handle(
    states: Seq<Map<(u64, Seq<u8>), u64>>,
    key: (u64, Seq<u8>),
    handles: Seq<ValueHandle>,
)
    requires
        interns_in_turn(states, key, handles),
    ensures
        forall|j: int| 0 <= j < handles.len() ==> #[trigger] handles[j] == handles[0],
        forall|j: int|
            1 <= j < handles.len() ==> (#[trigger] states[j]).contains_key(key) && states[j + 1]
                == states[1],
{
    assert forall|j: int| 0 <= j < handles.len() implies #[trigger] handles[j] == handles[0] by {
        if j >= 1 {
            lemma_handle_stays(states, key, handles, j);
            assert(canonical(states[j], key, handles[j].0, states[j + 1]));
        }
    }
    assert forall|j: int| 1 <= j < handles.len() implies (#[trigger] states[j]).contains_key(key)
        && states[j + 1] == states[1] by {
        lemma_handle_stays(states, key, handles, j);
        lemma_handle_stays(states, key, handles, j + 1);
    }
}

/// A request under one key neither reads nor changes the entry of another:
/// after a request on `first_key`, a request on a different key that was
/// absent before is still absent, so it runs its own fallback and takes its
/// handle from there. Both keys then hold the handle their own request got.
pub proof fn lemma_requests_with_two_keys_are_apart(
    before: Map<(u64, Seq<u8>), u64>,
    first_key: (u64, Seq<u8>),
    first: ValueHandle,
    between: Map<(u64, Seq<u8>), u64>,
    second_key: (u64, Seq<u8>),
    second: ValueHandle,
    after: Map<(u64, Seq<u8>), u64>,
)
    requires
        first_key != second_key,
        canonical(before, first_key, first.0, between),
        canonical(between, second_key, second.0, after),
    ensures
        stored(between, second_key) == stored(before, second_key),
        stored(after, first_key) == Some(first.0),
        stored(after, second_key) == Some(second.0),
        !before.contains_key(second_key) ==> after == between.insert(second_key, second.0),
{
}

/// A map in which no handle stands under two keys stays so through a request,
/// provided that the fallback, where it runs, builds a handle that the map
/// does not hold yet. Handles of different keys then never coincide.
pub proof fn lemma_fresh_handles_never_alias(
    before: Map<(u64, Seq<u8>), u64>,
    key: (u64, Seq<u8>),
    handle: ValueHandle,
    after: Map<(u64, Seq<u8>), u64>,
)
    requires
        alias_free(before),
        canonical(before, key, handle.0, after),
        !before.contains_key(key) ==> unused(before, handle.0),
    ensures
        alias_free(after),
        forall|other: (u64, Seq<u8>)|
            other != key && after.contains_key(other) ==> after[other] != handle.0,
{
}

} // verus!
