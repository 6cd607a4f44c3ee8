//! Sequences of values filed under text keys: the mathematical picture that
//! the snapshot and the cache share.

use vstd::prelude::*;

verus! {

/// Whether some entry is filed under `key`.
pub open spec fn holds<V>(entries: Seq<(Seq<char>, V)>, key: Seq<char>) -> bool {
    exists|i: int| 0 <= i < entries.len() && (#[trigger] entries[i]).0 == key
}

/// The place of an entry filed under `key`; where no key stands twice it is
/// the only one.
pub open spec fn slot<V>(entries: Seq<(Seq<char>, V)>, key: Seq<char>) -> int {
    choose|i: int| 0 <= i < entries.len() && (#[trigger] entries[i]).0 == key
}

/// The value filed under `key`, if any.
pub open spec fn lookup<V>(entries: Seq<(Seq<char>, V)>, key: Seq<char>) -> Option<V> {
    if holds(entries, key) {
        Some(entries[slot(entries, key)].1)
    } else {
        None
    }
}

/// Whether no key stands twice in `entries`.
pub open spec fn distinct_keys<V>(entries: Seq<(Seq<char>, V)>) -> bool {
    forall|i: int, j: int|
        0 <= i < j < entries.len() ==> (#[trigger] entries[i]).0 != (#[trigger] entries[j]).0
}

/// Where no key stands twice, the entry found at a place is the one its key
/// leads to.
pub proof fn lemma_slot_is_unique<V>(entries: Seq<(Seq<char>, V)>, at: int)
    requires
        distinct_keys(entries),
        0 <= at < entries.len(),
    ensures
        holds(entries, entries[at].0),
        slot(entries, entries[at].0) == at,
        lookup(entries, entries[at].0) == Some(entries[at].1),
{
}

} // verus!
