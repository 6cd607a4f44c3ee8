//! What holds of the cache and of the findings, whatever the input.

use vstd::prelude::*;

use crate::cache::{lemma_put_keeps_others, lemma_put_well_formed, put, touch, well_formed};
use crate::keyed::{distinct_keys, holds, lemma_slot_is_unique, lookup, slot};
use crate::diff::{classification_of, describes, entries_after, Change, Classification};
use crate::path::{normalized, text};
use crate::poller::{
    answers, next_entries, next_state, PollAction, PollEvent, PollPhase, PollState,
};
use crate::torrents::{is_nan, is_zero, percent_differs, Torrent};

verus! {

/// Completions are compared as numbers, exactly: a number does not differ
/// from itself, the order of the two does not matter, numbers with different
/// bits differ unless both are zero, and what is not a number differs from
/// everything.
pub proof fn law_percent_is_compared_as_a_number(a: u64, b: u64)
    ensures
        !is_nan(a) ==> !percent_differs(a, a),
        percent_differs(a, b) == percent_differs(b, a),
        a != b && !(is_zero(a) && is_zero(b)) ==> percent_differs(a, b),
        is_nan(a) || is_nan(b) ==> percent_differs(a, b),
{
}

/// A record whose hash the cache does not hold is classified as new, and
/// its finding carries one command, for the normalised directory of the
/// record.
pub proof fn law_absent_is_new(
    change: Change,
    before: Seq<(Seq<char>, Torrent)>,
    mount: Seq<char>,
    hash: Seq<char>,
    torrent: Torrent,
)
    requires
        describes(change, before, mount, hash, torrent),
        !holds(before, hash),
    ensures
        change.classification == Classification::New,
        change.previous is None,
        change.invalidation is Some,
        change.invalidation->0.directory@ == normalized(mount, text(torrent.directory)),
{
}

/// A record whose hash the cache holds with the same completion is
/// classified as unchanged, and its finding carries no command.
pub proof fn law_same_percent_is_unchanged(
    change: Change,
    before: Seq<(Seq<char>, Torrent)>,
    mount: Seq<char>,
    hash: Seq<char>,
    torrent: Torrent,
)
    requires
        describes(change, before, mount, hash, torrent),
        holds(before, hash),
        !percent_differs(lookup(before, hash)->0.percent_complete, torrent.percent_complete),
    ensures
        change.classification == Classification::Unchanged,
        change.invalidation is None,
{
}

/// A record whose hash the cache holds with another completion is
/// classified as updated, and its finding carries one command, for the
/// normalised directory of the record.
pub proof fn law_other_percent_is_updated(
    change: Change,
    before: Seq<(Seq<char>, Torrent)>,
    mount: Seq<char>,
    hash: Seq<char>,
    torrent: Torrent,
)
    requires
        describes(change, before, mount, hash, torrent),
        holds(before, hash),
        percent_differs(lookup(before, hash)->0.percent_complete, torrent.percent_complete),
    ensures
        change.classification == Classification::Updated,
        change.previous == lookup(before, hash),
        change.invalidation is Some,
        change.invalidation->0.directory@ == normalized(mount, text(torrent.directory)),
{
}

/// A hash that a snapshot has not named yet is remembered, if at all, as
/// it was when the snapshot began: storing the records before it added no
/// entry for it and changed none.
pub proof fn lemma_unnamed_hash_is_untouched(
    entries: Seq<(Seq<char>, Torrent)>,
    capacity: nat,
    records: Seq<(Seq<char>, Torrent)>,
    key: Seq<char>,
)
    requires
        well_formed(entries, capacity),
        forall|j: int| 0 <= j < records.len() ==> (#[trigger] records[j]).0 != key,
        holds(entries_after(entries, capacity, records), key),
    ensures
        holds(entries, key),
        lookup(entries_after(entries, capacity, records), key) == lookup(entries, key),
    decreases records.len(),
{
    if records.len() > 0 {
        let earlier = records.drop_last();
        let before = entries_after(entries, capacity, earlier);
        lemma_entries_after_well_formed(entries, capacity, earlier);
        assert(records[records.len() - 1].0 != key);
        lemma_put_keeps_others(before, capacity, records.last().0, records.last().1, key);
        assert forall|j: int| 0 <= j < earlier.len() implies (#[trigger] earlier[j]).0 != key by {
            assert(earlier[j] == records[j]);
        }
        lemma_unnamed_hash_is_untouched(entries, capacity, earlier, key);
    }
}

/// In any snapshot, a record whose hash the cache did not hold when the
/// snapshot began is classified as new, and its finding carries one command,
/// for the normalised directory of the record.
pub proof fn law_snapshot_absent_is_new(
    change: Change,
    entries: Seq<(Seq<char>, Torrent)>,
    capacity: nat,
    mount: Seq<char>,
    records: Seq<(Seq<char>, Torrent)>,
    i: int,
)
    requires
        well_formed(entries, capacity),
        distinct_keys(records),
        0 <= i < records.len(),
        describes(
            change,
            entries_after(entries, capacity, records.take(i)),
            mount,
            records[i].0,
            records[i].1,
        ),
        !holds(entries, records[i].0),
    ensures
        change.classification == Classification::New,
        change.previous is None,
        change.invalidation is Some,
        change.invalidation->0.directory@ == normalized(mount, text(records[i].1.directory)),
{
    let earlier = records.take(i);
    let key = records[i].0;
    if holds(entries_after(entries, capacity, earlier), key) {
        assert forall|j: int| 0 <= j < earlier.len() implies (#[trigger] earlier[j]).0 != key by {
            assert(earlier[j] == records[j]);
        }
        lemma_unnamed_hash_is_untouched(entries, capacity, earlier, key);
    }
}

/// In any snapshot, a record whose hash the cache still holds when its turn
/// comes, with the completion the record has, is classified as unchanged,
/// and its finding carries no command.  The record the cache holds is the
/// one it held when the snapshot began.
pub proof fn law_snapshot_same_percent_is_unchanged(
    change: Change,
    entries: Seq<(Seq<char>, Torrent)>,
    capacity: nat,
    mount: Seq<char>,
    records: Seq<(Seq<char>, Torrent)>,
    i: int,
)
    requires
        well_formed(entries, capacity),
        distinct_keys(records),
        0 <= i < records.len(),
        describes(
            change,
            entries_after(entries, capacity, records.take(i)),
            mount,
            records[i].0,
            records[i].1,
        ),
        holds(entries_after(entries, capacity, records.take(i)), records[i].0),
        !percent_differs(
            lookup(entries, records[i].0)->0.percent_complete,
            records[i].1.percent_complete,
        ),
    ensures
        holds(entries, records[i].0),
        change.classification == Classification::Unchanged,
        change.previous == lookup(entries, records[i].0),
        change.invalidation is None,
{
    let earlier = records.take(i);
    let key = records[i].0;
    assert forall|j: int| 0 <= j < earlier.len() implies (#[trigger] earlier[j]).0 != key by {
        assert(earlier[j] == records[j]);
    }
    lemma_unnamed_hash_is_untouched(entries, capacity, earlier, key);
}

/// In any snapshot, a record whose hash the cache still holds when its turn
/// comes, with another completion than the record has, is classified as
/// updated, and its finding carries one command, for the normalised
/// directory of the record.  The record the cache holds is the one it held
/// when the snapshot began.
pub proof fn law_snapshot_other_percent_is_updated(
    change: Change,
    entries: Seq<(Seq<char>, Torrent)>,
    capacity: nat,
    mount: Seq<char>,
    records: Seq<(Seq<char>, Torrent)>,
    i: int,
)
    requires
        well_formed(entries, capacity),
        distinct_keys(records),
        0 <= i < records.len(),
        describes(
            change,
            entries_after(entries, capacity, records.take(i)),
            mount,
            records[i].0,
            records[i].1,
        ),
        holds(entries_after(entries, capacity, records.take(i)), records[i].0),
        percent_differs(
            lookup(entries, records[i].0)->0.percent_complete,
            records[i].1.percent_complete,
        ),
    ensures
        holds(entries, records[i].0),
        change.classification == Classification::Updated,
        change.previous == lookup(entries, records[i].0),
        change.invalidation is Some,
        change.invalidation->0.directory@ == normalized(mount, text(records[i].1.directory)),
{
    let earlier = records.take(i);
    let key = records[i].0;
    assert forall|j: int| 0 <= j < earlier.len() implies (#[trigger] earlier[j]).0 != key by {
        assert(earlier[j] == records[j]);
    }
    lemma_unnamed_hash_is_untouched(entries, capacity, earlier, key);
}

/// Storing a record makes it the one the cache holds for its hash,
/// whatever was there before.
pub proof fn law_put_then_lookup<V>(entries: Seq<(Seq<char>, V)>, capacity: nat, key: Seq<char>, value: V)
    requires
        well_formed(entries, capacity),
    ensures
        lookup(put(entries, capacity, key, value), key) == Some(value),
{
    let after = put(entries, capacity, key, value);
    lemma_put_well_formed(entries, capacity, key, value);
    assert(after[0] == (key, value));
    assert(holds(after, key));
    assert(slot(after, key) == 0);
}

/// Storing every record of a snapshot keeps the cache well formed.
pub proof fn lemma_entries_after_well_formed(
    entries: Seq<(Seq<char>, Torrent)>,
    capacity: nat,
    records: Seq<(Seq<char>, Torrent)>,
)
    requires
        well_formed(entries, capacity),
    ensures
        well_formed(entries_after(entries, capacity, records), capacity),
    decreases records.len(),
{
    if records.len() > 0 {
        lemma_entries_after_well_formed(entries, capacity, records.drop_last());
        lemma_put_well_formed(
            entries_after(entries, capacity, records.drop_last()),
            capacity,
            records.last().0,
            records.last().1,
        );
    }
}

/// After a snapshot that fits the cache and names no hash twice, its
/// records stand at the front of the cache, the last processed first.
pub proof fn lemma_snapshot_at_front(
    entries: Seq<(Seq<char>, Torrent)>,
    capacity: nat,
    records: Seq<(Seq<char>, Torrent)>,
)
    requires
        well_formed(entries, capacity),
        distinct_keys(records),
        records.len() <= capacity,
    ensures
        records.len() <= entries_after(entries, capacity, records).len(),
        forall|i: int|
            0 <= i < records.len() ==> #[trigger] entries_after(entries, capacity, records)[i]
                == records[records.len() - 1 - i],
    decreases records.len(),
{
    if records.len() > 0 {
        let n = records.len() as int;
        let earlier = records.drop_last();
        let before = entries_after(entries, capacity, earlier);
        let after = entries_after(entries, capacity, records);
        let key = records.last().0;
        lemma_snapshot_at_front(entries, capacity, earlier);
        lemma_entries_after_well_formed(entries, capacity, earlier);
        assert forall|i: int| 0 <= i < n - 1 implies (#[trigger] before[i]).0 != key by {
            assert(before[i] == earlier[n - 2 - i]);
            assert(earlier[n - 2 - i] == records[n - 2 - i]);
        }
        if holds(before, key) {
            let s = slot(before, key);
            assert(s >= n - 1);
            assert forall|i: int| 0 <= i < n implies #[trigger] after[i] == records[n - 1 - i] by {
                if i > 0 {
                    assert(after[i] == before[i - 1]);
                    assert(before[i - 1] == earlier[n - 2 - (i - 1)]);
                }
            }
        } else {
            assert forall|i: int| 0 <= i < n implies #[trigger] after[i] == records[n - 1 - i] by {
                if i > 0 {
                    assert(after[i] == before[i - 1]);
                    assert(before[i - 1] == earlier[n - 2 - (i - 1)]);
                }
            }
        }
    }
}

/// After a snapshot that fits the cache and names no hash twice, the cache
/// holds for every hash of the snapshot the record exactly as the snapshot
/// gave it, however the record was classified.
pub proof fn law_write_through(
    entries: Seq<(Seq<char>, Torrent)>,
    capacity: nat,
    records: Seq<(Seq<char>, Torrent)>,
    i: int,
)
    requires
        well_formed(entries, capacity),
        distinct_keys(records),
        records.len() <= capacity,
        0 <= i < records.len(),
    ensures
        lookup(entries_after(entries, capacity, records), records[i].0) == Some(records[i].1),
{
    let after = entries_after(entries, capacity, records);
    let at = records.len() - 1 - i;
    lemma_snapshot_at_front(entries, capacity, records);
    lemma_entries_after_well_formed(entries, capacity, records);
    assert(after[at] == records[i]);
    assert(holds(after, records[i].0));
    assert(slot(after, records[i].0) == at);
}

/// Looking a hash up forgets nothing and changes no record: every hash is
/// held afterwards as it was held before.
pub proof fn law_get_forgets_nothing<V>(
    entries: Seq<(Seq<char>, V)>,
    capacity: nat,
    key: Seq<char>,
    other: Seq<char>,
)
    requires
        well_formed(entries, capacity),
    ensures
        lookup(touch(entries, key), other) == lookup(entries, other),
{
    if holds(entries, key) {
        let s = slot(entries, key);
        let after = touch(entries, key);
        if holds(entries, other) {
            let o = slot(entries, other);
            let to = if o == s { 0 } else if o < s { o + 1 } else { o };
            assert(after[to] == entries[o]);
            assert(holds(after, other));
        }
        if holds(after, other) {
            let t = slot(after, other);
            let from = if t == 0 { s } else if t - 1 < s { t - 1 } else { t };
            assert(after[t] == entries[from]);
            assert(holds(entries, other));
            assert(slot(entries, other) == from);
        }
    }
}

/// Storing a record forgets nothing while there is room or the hash is
/// already held: a record leaves the cache only to make room for a new hash.
pub proof fn law_put_forgets_only_when_full<V>(
    entries: Seq<(Seq<char>, V)>,
    capacity: nat,
    key: Seq<char>,
    value: V,
    other: Seq<char>,
)
    requires
        well_formed(entries, capacity),
        entries.len() < capacity || holds(entries, key),
        other != key,
    ensures
        lookup(put(entries, capacity, key, value), other) == lookup(entries, other),
{
    let after = put(entries, capacity, key, value);
    if holds(entries, other) {
        let o = slot(entries, other);
        if holds(entries, key) {
            let s = slot(entries, key);
            let to = if o < s { o + 1 } else { o };
            assert(after[to] == entries[o]);
        } else {
            assert(after[o + 1] == entries[o]);
        }
        assert(holds(after, other));
    }
    if holds(after, other) {
        lemma_put_keeps_others(entries, capacity, key, value, other);
    }
}

/// Storing a new hash in a full cache forgets the least recently used
/// entry, the one at the end, and nothing else; when the forgotten hash
/// comes again it is classified as new.
pub proof fn law_full_cache_evicts_least_recent(
    entries: Seq<(Seq<char>, Torrent)>,
    capacity: nat,
    key: Seq<char>,
    value: Torrent,
    again: Torrent,
)
    requires
        well_formed(entries, capacity),
        entries.len() == capacity,
        !holds(entries, key),
    ensures
        !holds(put(entries, capacity, key, value), entries.last().0),
        classification_of(lookup(put(entries, capacity, key, value), entries.last().0), again)
            == Classification::New,
        forall|other: Seq<char>|
            other != key && other != entries.last().0 ==> lookup(
                put(entries, capacity, key, value),
                other,
            ) == #[trigger] lookup(entries, other),
{
    let after = put(entries, capacity, key, value);
    let gone = entries.last().0;
    let n = entries.len() as int;
    lemma_put_well_formed(entries, capacity, key, value);
    lemma_slot_is_unique(entries, n - 1);
    assert(after =~= seq![(key, value)] + entries.drop_last());
    if holds(after, gone) {
        let t = slot(after, gone);
        assert(after[t] == entries[t - 1]);
        lemma_slot_is_unique(entries, t - 1);
        assert(false);
    }
    assert forall|other: Seq<char>| other != key && other != gone implies lookup(after, other)
        == lookup(entries, other) by {
        if holds(entries, other) {
            let s = slot(entries, other);
            assert(after[s + 1] == entries[s]);
            lemma_slot_is_unique(after, s + 1);
        } else if holds(after, other) {
            lemma_put_keeps_others(entries, capacity, key, value, other);
        }
    }
}

/// Starting from an empty cache, the record that follows as many distinct
/// hashes as the cache can hold makes the cache forget the first of them and
/// keep all the others; when the first comes again it is classified as new.
pub proof fn law_one_too_many_forgets_first(
    capacity: nat,
    records: Seq<(Seq<char>, Torrent)>,
    again: Torrent,
)
    requires
        0 < capacity,
        distinct_keys(records),
        records.len() == capacity + 1,
    ensures
        !holds(entries_after(Seq::empty(), capacity, records), records[0].0),
        classification_of(
            lookup(entries_after(Seq::empty(), capacity, records), records[0].0),
            again,
        ) == Classification::New,
        forall|i: int|
            1 <= i < records.len() ==> lookup(
                entries_after(Seq::empty(), capacity, records),
                (#[trigger] records[i]).0,
            ) == Some(records[i].1),
{
    let empty = Seq::<(Seq<char>, Torrent)>::empty();
    let earlier = records.drop_last();
    let before = entries_after(empty, capacity, earlier);
    let after = entries_after(empty, capacity, records);
    let key = records.last().0;
    let value = records.last().1;
    let n = capacity as int;
    lemma_snapshot_at_front(empty, capacity, earlier);
    lemma_entries_after_well_formed(empty, capacity, earlier);
    assert(before.len() == n);
    assert(before[n - 1] == earlier[0]);
    assert(before.last().0 == records[0].0);
    if holds(before, key) {
        let s = slot(before, key);
        assert(before[s] == earlier[n - 1 - s]);
        assert(earlier[n - 1 - s] == records[n - 1 - s]);
        assert(false);
    }
    law_full_cache_evicts_least_recent(before, capacity, key, value, again);
    law_put_then_lookup(before, capacity, key, value);
    assert forall|i: int| 1 <= i < records.len() implies lookup(after, (#[trigger] records[i]).0)
        == Some(records[i].1) by {
        if i < n {
            law_write_through(empty, capacity, earlier, i);
            assert(earlier[i] == records[i]);
            assert(records[i].0 != key);
            assert(records[i].0 != records[0].0);
            assert(lookup(after, records[i].0) == lookup(before, records[i].0));
        }
    }
}

/// A failed fetch leaves the cache as it was and asks for no command: the
/// watcher goes back to waiting one interval, and the timer then starts the
/// next poll.
pub proof fn law_failed_fetch_changes_nothing(
    action: PollAction,
    entries: Seq<(Seq<char>, Torrent)>,
    capacity: nat,
    mount: Seq<char>,
    interval: u64,
)
    requires
        answers(
            action,
            PollState::Polling(PollPhase::Fetching),
            PollEvent::FetchFailed,
            entries,
            capacity,
            mount,
            interval,
        ),
    ensures
        action == (PollAction::Wait { seconds: interval }),
        next_entries(PollState::Polling(PollPhase::Fetching), PollEvent::FetchFailed, entries, capacity)
            == entries,
        next_state(PollState::Polling(PollPhase::Fetching), PollEvent::FetchFailed) == PollState::Idle,
        next_state(PollState::Idle, PollEvent::TimerExpired) == PollState::Polling(PollPhase::Fetching),
{
}

/// Polls do not overlap: a fetch is asked for only when the timer finds the
/// watcher idle, a poll ends only when its fetch has failed or its dispatch
/// is over, and the cache changes only when the snapshot that a poll asked
/// for arrives.
pub proof fn law_polls_do_not_overlap(
    action: PollAction,
    state: PollState,
    event: PollEvent,
    entries: Seq<(Seq<char>, Torrent)>,
    capacity: nat,
    mount: Seq<char>,
    interval: u64,
)
    requires
        answers(action, state, event, entries, capacity, mount, interval),
    ensures
        action is Fetch <==> state == PollState::Idle && event is TimerExpired,
        state is Polling && next_state(state, event) == PollState::Idle ==> (state
            == PollState::Polling(PollPhase::Fetching) && event is FetchFailed) || (state
            == PollState::Polling(PollPhase::Dispatching) && event is Dispatched),
        action is Dispatch <==> state == PollState::Polling(PollPhase::Fetching) && event is Fetched,
        next_entries(state, event, entries, capacity) != entries ==> state == PollState::Polling(
            PollPhase::Fetching,
        ) && event is Fetched,
{
}

} // verus!
