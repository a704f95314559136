//! The mathematical model of a canonicalizing table: a map from keys to
//! identities in which a key, once present, keeps its identity for good.

use vstd::prelude::*;

verus! {

/// The identity stored under `key`, if there is one.
pub open spec fn stored<K>(entries: Map<K, u64>, key: K) -> Option<u64> {
    if entries.contains_key(key) {
        Some(entries[key])
    } else {
        None
    }
}

/// `entries` with the entry of `key` set to `entry`: stored if it is `Some`,
/// taken out if it is `None`.
pub open spec fn replaced<K>(entries: Map<K, u64>, key: K, entry: Option<u64>) -> Map<K, u64> {
    match entry {
        Some(id) => entries.insert(key, id),
        None => entries.remove(key),
    }
}

/// One read-or-insert step on `key` that ended with `id`: either `key` was
/// present with `id` and nothing changed, or it was absent and is now bound
/// to `id`, with every other entry as before.
pub open spec fn canonical<K>(before: Map<K, u64>, key: K, id: u64, after: Map<K, u64>) -> bool {
    match stored(before, key) {
        Some(present) => id == present && after == before,
        None => after == before.insert(key, id),
    }
}

/// No identity is stored under two keys.
pub open spec fn alias_free<K>(entries: Map<K, u64>) -> bool {
    forall|a: K, b: K|
        entries.contains_key(a) && entries.contains_key(b) && a != b ==> entries[a] != entries[b]
}

/// `id` is stored under no key.
pub open spec fn unused<K>(entries: Map<K, u64>, id: u64) -> bool {
    forall|k: K| entries.contains_key(k) ==> entries[k] != id
}

/// A read-or-insert step leaves `key` bound to the identity it ended with,
/// and touches no other key.
pub proof fn lemma_canonical_binds_only_its_key<K>(
    before: Map<K, u64>,
    key: K,
    id: u64,
    after: Map<K, u64>,
)
    requires
        canonical(before, key, id, after),
    ensures
        stored(after, key) == Some(id),
        forall|other: K| other != key ==> stored(after, other) == stored(before, other),
        forall|k: K| before.contains_key(k) ==> after.contains_key(k) && after[k] == before[k],
{
}

/// Setting the entry of a key to what is stored under it changes nothing.
pub proof fn lemma_replacing_with_the_stored_entry<K>(entries: Map<K, u64>, key: K)
    ensures
        replaced(entries, key, stored(entries, key)) == entries,
{
    assert(replaced(entries, key, stored(entries, key)) =~= entries);
}

} // verus!
