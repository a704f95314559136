//! The two concurrent hash maps that back the engine, as far as the engine
//! relies on them.
//!
//! Nothing in this file is proved. Each function states what the `chashmap`
//! crate does when one caller holds the map exclusively, which is how the
//! engine holds it: the closure handed to a map cannot reach that map, and no
//! other caller changes it meanwhile. That memory suffices for the map to grow
//! is taken for granted.

use vstd::prelude::*;
use chashmap::CHashMap;
use crate::table::{replaced, stored};

verus! {

/// `chashmap::CHashMap`, carried as a value that only the functions below
/// look into.
#[verifier::external_type_specification]
#[verifier::external_body]
#[verifier::reject_recursive_types(K)]
#[verifier::reject_recursive_types(V)]
pub struct ExCHashMap<K, V>(chashmap::CHashMap<K, V>);

/// The entries of an invocation cache: the task stored under each pair of a
/// function's identity and its ordered inputs' identities.
pub uninterp spec fn task_entries(cache: CHashMap<(u64, Vec<u64>), u64>) -> Map<(u64, Seq<u64>), u64>;

/// The entries of an interning map: the value stored under each pair of a
/// type tag and a key's bytes.
pub uninterp spec fn interned_entries(map: CHashMap<(u64, Vec<u8>), u64>) -> Map<(u64, Seq<u8>), u64>;

/// Whether `pairs` holds every entry of `entries` exactly once, in any order.
pub open spec fn lists_entries(
    pairs: Seq<((u64, Vec<u64>), u64)>,
    entries: Map<(u64, Seq<u64>), u64>,
) -> bool {
    &&& forall|i: int|
        0 <= i < pairs.len() ==> entries.contains_key((pairs[i].0.0, pairs[i].0.1@))
            && entries[(pairs[i].0.0, pairs[i].0.1@)] == pairs[i].1
    &&& forall|key: (u64, Seq<u64>)|
        entries.contains_key(key) ==> exists|i: int|
            0 <= i < pairs.len() && (#[trigger] pairs[i]).0.0 == key.0 && pairs[i].0.1@ == key.1
    &&& forall|i: int, j: int|
        0 <= i < j < pairs.len() ==> (pairs[i].0.0, pairs[i].0.1@) != (pairs[j].0.0, pairs[j].0.1@)
}

/// `CHashMap::new`: a map without entries.
#[verifier::external_body]
pub(crate) fn new_task_cache() -> (cache: CHashMap<(u64, Vec<u64>), u64>)
    ensures
        task_entries(cache) == (Map::<(u64, Seq<u64>), u64>::empty()),
{
    CHashMap::new()
}

/// `CHashMap::new`: a map without entries.
#[verifier::external_body]
pub(crate) fn new_interning_map() -> (map: CHashMap<(u64, Vec<u8>), u64>)
    ensures
        interned_entries(map) == (Map::<(u64, Seq<u8>), u64>::empty()),
{
    CHashMap::new()
}

/// `CHashMap::alter`: calls `decide` once, on the entry stored under `key` or
/// on `None` where there is none, and sets the entry to the first part of
/// what `decide` gave: stores it if it is `Some`, removes it if it is `None`.
/// No other entry changes. The second part of what `decide` gave comes back
/// to the caller, inside `Some`.
#[verifier::external_body]
pub(crate) fn alter_task_cache<O, F: FnOnce(Option<u64>) -> (Option<u64>, O)>(
    cache: &mut CHashMap<(u64, Vec<u64>), u64>,
    key: (u64, Vec<u64>),
    decide: F,
) -> (outcome: Option<O>)
    requires
        call_requires(decide, (stored(task_entries(*old(cache)), (key.0, key.1@)),)),
    ensures
        outcome matches Some(o) && exists|entry: Option<u64>|
            {
                &&& call_ensures(
                    decide,
                    (stored(task_entries(*old(cache)), (key.0, key.1@)),),
                    (entry, o),
                )
                &&& task_entries(*final(cache)) == replaced(
                    task_entries(*old(cache)),
                    (key.0, key.1@),
                    entry,
                )
            },
{
    let mut outcome = None;
    cache.alter(key, |current| {
        let (entry, o) = decide(current);
        outcome = Some(o);
        entry
    });
    outcome
}

/// `CHashMap::upsert`: where `key` has an entry, the entry stays and comes
/// back as the second part of the result; `make` is not called, so nothing is
/// asked of it. Where it has none, `make` is called once, what it gave is
/// stored under `key` and comes back as the first part. No other entry
/// changes.
#[verifier::external_body]
pub(crate) fn upsert_interning_map<F: FnOnce() -> u64>(
    map: &mut CHashMap<(u64, Vec<u8>), u64>,
    key: (u64, Vec<u8>),
    make: F,
) -> (slots: (Option<u64>, Option<u64>))
    requires
        stored(interned_entries(*old(map)), (key.0, key.1@)) is None ==> call_requires(make, ()),
    ensures
        match stored(interned_entries(*old(map)), (key.0, key.1@)) {
            Some(present) => slots.0 is None && slots.1 == Some(present) && interned_entries(
                *final(map),
            ) == interned_entries(*old(map)),
            None => slots.0 matches Some(made) && slots.1 is None && call_ensures(make, (), made)
                && interned_entries(*final(map)) == interned_entries(*old(map)).insert(
                (key.0, key.1@),
                made,
            ),
        },
{
    let mut made = None;
    let mut found = None;
    let insert = || {
        let id = make();
        made = Some(id);
        id
    };
    map.upsert(key, insert, |present| found = Some(*present));
    (made, found)
}

/// `CHashMap::clone` and then `into_iter`: every entry of the map at this
/// moment, each once, in an order that nothing fixes. The map is not changed.
#[verifier::external_body]
pub(crate) fn snapshot_task_cache(cache: &CHashMap<(u64, Vec<u64>), u64>) -> (pairs: Vec<
    ((u64, Vec<u64>), u64),
>)
    ensures
        lists_entries(pairs@, task_entries(*cache)),
{
    cache.clone().into_iter().collect()
}

} // verus!
