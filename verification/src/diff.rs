//! Comparison of an incoming snapshot with the torrents seen before.

use vstd::prelude::*;

use crate::cache::{lemma_put_after_touch, put, TorrentCache};
use crate::keyed::lookup;
use crate::laws::law_write_through;
use crate::path::{normalized, outside_mount, relative_directory_from, root, strip_prefix, text};
use crate::torrents::{percent_changed, percent_differs, records_of, Torrent, Torrents};

verus! {

/// How a record of a snapshot relates to what was seen before.
#[derive(Debug, Clone, Copy, PartialEq, Eq, Structural)]
pub enum Classification {
    /// The hash was not in the cache.
    New,
    /// The hash was in the cache with another completion.
    Updated,
    /// The hash was in the cache with the same completion.
    Unchanged,
}

/// The command to drop what is cached downstream for one directory.
#[derive(Debug, Clone, PartialEq, Eq)]
pub struct Invalidation {
    /// The directory to forget, relative to the mount.
    pub directory: String,
    /// The torrent lies outside the mount and its directory is passed on as
    /// it was reported, which deserves a warning.
    pub outside_mount: bool,
}

/// What processing one record of a snapshot found.
#[derive(Debug, Clone, PartialEq, Eq)]
pub struct Change {
    /// The hash the record was filed under.
    pub hash: String,
    /// The name of the torrent.
    pub name: String,
    /// The completion of the torrent, as the bits of a double.
    pub percent_complete: u64,
    pub classification: Classification,
    /// The record that the cache held for the hash until now.
    pub previous: Option<Torrent>,
    /// The command to send, present for every record but an unchanged one.
    pub invalidation: Option<Invalidation>,
}

/// The classification of `current` when the cache held `previous` for its
/// hash.
pub open spec fn classification_of(previous: Option<Torrent>, current: Torrent) -> Classification {
    match previous {
        None => Classification::New,
        Some(seen) => if percent_differs(seen.percent_complete, current.percent_complete) {
            Classification::Updated
        } else {
            Classification::Unchanged
        },
    }
}

/// Whether `change` is the finding for `torrent`, filed under `hash`, when
/// the cache held `before` and the mount is `mount`.
pub open spec fn describes(
    change: Change,
    before: Seq<(Seq<char>, Torrent)>,
    mount: Seq<char>,
    hash: Seq<char>,
    torrent: Torrent,
) -> bool {
    &&& change.hash@ == hash
    &&& change.name@ == torrent.name@
    &&& change.percent_complete == torrent.percent_complete
    &&& change.previous == lookup(before, hash)
    &&& change.classification == classification_of(lookup(before, hash), torrent)
    &&& match change.invalidation {
        Some(command) => {
            &&& change.classification != Classification::Unchanged
            &&& command.directory@ == normalized(mount, text(torrent.directory))
            &&& command.outside_mount == outside_mount(mount, text(torrent.directory))
        },
        None => change.classification == Classification::Unchanged,
    }
}

/// The cache after every record of `records` was stored in turn.
pub open spec fn entries_after(
    entries: Seq<(Seq<char>, Torrent)>,
    capacity: nat,
    records: Seq<(Seq<char>, Torrent)>,
) -> Seq<(Seq<char>, Torrent)>
    decreases records.len(),
{
    if records.len() == 0 {
        entries
    } else {
        put(
            entries_after(entries, capacity, records.drop_last()),
            capacity,
            records.last().0,
            records.last().1,
        )
    }
}

/// Classifies `current` against the record the cache holds for its hash.
pub fn classify(previous: Option<&Torrent>, current: &Torrent) -> (classification: Classification)
    ensures
        classification == classification_of(
            match previous {
                Some(seen) => Some(*seen),
                None => None,
            },
            *current,
        ),
{
    match previous {
        None => Classification::New,
        Some(seen) => if percent_changed(seen.percent_complete, current.percent_complete) {
            Classification::Updated
        } else {
            Classification::Unchanged
        },
    }
}

/// The command that drops what is cached downstream for `torrent`.
pub fn invalidation_for(mount_directory: &str, torrent: &Torrent) -> (command: Invalidation)
    ensures
        command.directory@ == normalized(mount_directory@, text(torrent.directory)),
        command.outside_mount == outside_mount(mount_directory@, text(torrent.directory)),
{
    match &torrent.directory {
        Some(directory) => {
            let stripped = strip_prefix(directory.as_str(), mount_directory);
            let outside = stripped.is_none();
            Invalidation {
                directory: relative_directory_from(stripped, directory.as_str()),
                outside_mount: outside,
            }
        },
        None => Invalidation { directory: root(), outside_mount: false },
    }
}

/// Processes one record of a snapshot: looks `hash` up, classifies `torrent`
/// against what was found, and then stores `torrent` whatever the finding.
pub fn observe(cache: &mut TorrentCache, mount_directory: &str, hash: String, torrent: Torrent) -> (change: Change)
    ensures
        describes(change, old(cache).entries(), mount_directory@, hash@, torrent),
        final(cache).entries() == put(old(cache).entries(), old(cache).capacity(), hash@, torrent),
        final(cache).capacity() == old(cache).capacity(),
{
    proof {
        use_type_invariant(&*cache);
        lemma_put_after_touch(cache.entries(), cache.capacity(), hash@, torrent);
    }
    let classification = classify(cache.get(hash.as_str()), &torrent);
    let invalidation = match classification {
        Classification::Unchanged => None,
        _ => Some(invalidation_for(mount_directory, &torrent)),
    };
    let name = torrent.name.clone();
    let percent_complete = torrent.percent_complete;
    let previous = cache.put(hash.clone(), torrent);
    Change { hash, name, percent_complete, classification, previous, invalidation }
}

/// Processes a snapshot record by record, in its order: each record is
/// classified against the cache as the records before it left it, and then
/// stored.  The findings come back in the order of the records.
///
/// Where the snapshot has no more records than the cache can hold, the
/// cache afterwards holds every record of the snapshot exactly as given.
pub fn process_torrents(cache: &mut TorrentCache, mount_directory: &str, torrents: Torrents) -> (changes: Vec<Change>)
    ensures
        final(cache).entries() == entries_after(
            old(cache).entries(),
            old(cache).capacity(),
            torrents.records(),
        ),
        final(cache).capacity() == old(cache).capacity(),
        changes@.len() == torrents.records().len(),
        forall|i: int|
            0 <= i < changes@.len() ==> describes(
                #[trigger] changes@[i],
                entries_after(old(cache).entries(), old(cache).capacity(), torrents.records().take(i)),
                mount_directory@,
                torrents.records()[i].0,
                torrents.records()[i].1,
            ),
        torrents.records().len() <= old(cache).capacity() ==> forall|i: int|
            0 <= i < torrents.records().len() ==> lookup(
                final(cache).entries(),
                (#[trigger] torrents.records()[i]).0,
            ) == Some(torrents.records()[i].1),
{
    proof {
        use_type_invariant(&*cache);
    }
    let ghost records = torrents.records();
    let list = torrents.into_records();
    let ghost listed = list@;
    let ghost start = cache.entries();
    let ghost capacity = cache.capacity();
    let mut changes: Vec<Change> = Vec::new();
    for entry in it: list.into_iter()
        invariant
            it.seq() == listed,
            records == records_of(listed),
            cache.entries() == entries_after(start, capacity, records.take(it.index())),
            cache.capacity() == capacity,
            changes@.len() == it.index(),
            forall|i: int|
                0 <= i < it.index() ==> describes(
                    #[trigger] changes@[i],
                    entries_after(start, capacity, records.take(i)),
                    mount_directory@,
                    records[i].0,
                    records[i].1,
                ),
    {
        let ghost done = it.index();
        let (hash, torrent) = entry;
        proof {
            assert(records.take(done + 1).drop_last() =~= records.take(done));
        }
        let change = observe(cache, mount_directory, hash, torrent);
        changes.push(change);
    }
    proof {
        assert(records.take(records.len() as int) =~= records);
        if records.len() <= capacity {
            assert forall|i: int| 0 <= i < records.len() implies lookup(
                cache.entries(),
                (#[trigger] records[i]).0,
            ) == Some(records[i].1) by {
                law_write_through(start, capacity, records, i);
            }
        }
    }
    changes
}

} // verus!
