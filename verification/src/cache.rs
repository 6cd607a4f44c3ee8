//! The bounded cache of previously seen torrents.

use lru::LruCache;
use std::num::NonZeroUsize;
use vstd::prelude::*;

use crate::keyed::{distinct_keys, holds, lemma_slot_is_unique, lookup, slot};
use crate::torrents::Torrent;

verus! {

/// Number of torrents the watcher remembers.
pub const CACHE_CAPACITY: usize = 1000;

/// `lru::DefaultHasher`, the hasher a cache gets where none is chosen.  It
/// is declared so that the cache's type can be written; nothing is said of it.
#[verifier::external_type_specification]
#[verifier::external_body]
pub struct ExDefaultHasher(lru::DefaultHasher);

/// `lru::LruCache`.  A cache is opaque to the proofs: all that is known of
/// one is what the trusted functions below say of [`lru_entries`] and
/// [`lru_capacity`].
#[verifier::external_type_specification]
#[verifier::external_body]
#[verifier::reject_recursive_types(K)]
#[verifier::reject_recursive_types(V)]
#[verifier::reject_recursive_types(S)]
pub struct ExLruCache<K, V, S>(LruCache<K, V, S>);

/// What an `lru::LruCache` holds: its hashes, as text, with their torrents,
/// in the order of its list of entries, the most recently used first and the
/// least recently used last.  The name has no definition; the trusted
/// functions below say how each call changes what it stands for.
pub uninterp spec fn lru_entries(cache: LruCache<String, Torrent>) -> Seq<(Seq<char>, Torrent)>;

/// The number of entries an `lru::LruCache` was made to hold, which
/// `LruCache::cap` reports.  The name has no definition either.
pub uninterp spec fn lru_capacity(cache: LruCache<String, Torrent>) -> nat;

/// The entries after `key` was used: its entry moves to the front.
pub open spec fn touch<V>(entries: Seq<(Seq<char>, V)>, key: Seq<char>) -> Seq<(Seq<char>, V)> {
    if holds(entries, key) {
        seq![entries[slot(entries, key)]] + entries.remove(slot(entries, key))
    } else {
        entries
    }
}

/// The entries after `value` was stored under `key`: the new entry stands at
/// the front, in place of the one `key` had; where `key` is new and the cache
/// is full, the last entry makes room.
pub open spec fn put<V>(entries: Seq<(Seq<char>, V)>, capacity: nat, key: Seq<char>, value: V) -> Seq<(Seq<char>, V)> {
    if holds(entries, key) {
        seq![(key, value)] + entries.remove(slot(entries, key))
    } else if entries.len() == capacity {
        seq![(key, value)] + entries.drop_last()
    } else {
        seq![(key, value)] + entries
    }
}

/// Entries as a cache keeps them: no key twice, and no more than `capacity`.
pub open spec fn well_formed<V>(entries: Seq<(Seq<char>, V)>, capacity: nat) -> bool {
    &&& 0 < capacity
    &&& entries.len() <= capacity
    &&& distinct_keys(entries)
}

/// Calls `LruCache::new`.  Trusted: the cache it makes is empty and holds at
/// most `capacity` entries.  Zero is excluded because the call takes a
/// `NonZeroUsize`; the upper bound keeps the table it allocates small.
#[verifier::external_body]
fn lru_new(capacity: usize) -> (cache: LruCache<String, Torrent>)
    requires
        0 < capacity <= CACHE_CAPACITY,
    ensures
        lru_entries(cache) == Seq::<(Seq<char>, Torrent)>::empty(),
        lru_capacity(cache) == capacity,
{
    LruCache::new(NonZeroUsize::new(capacity).unwrap())
}

/// Calls `LruCache::get`.  Trusted: it hands out the torrent filed under
/// `hash`, or `None` where there is none; it moves that entry to the front
/// of the list and leaves every other entry, and the capacity, as they were;
/// and it does not panic.
#[verifier::external_body]
fn lru_get<'a>(cache: &'a mut LruCache<String, Torrent>, hash: &str) -> (found: Option<&'a Torrent>)
    ensures
        lru_entries(*final(cache)) == touch(lru_entries(*old(cache)), hash@),
        lru_capacity(*final(cache)) == lru_capacity(*old(cache)),
        match found {
            Some(torrent) => lookup(lru_entries(*old(cache)), hash@) == Some(*torrent),
            None => lookup(lru_entries(*old(cache)), hash@) is None,
        },
    no_unwind
{
    cache.get(hash)
}

/// Calls `LruCache::put`.  Trusted: it files `torrent` under `hash` at the
/// front of the list.  Where `hash` had an entry, that entry is replaced and
/// its torrent handed back.  Where `hash` is new, `None` is handed back, and
/// if the cache holds as many entries as its capacity, the last entry of the
/// list is dropped first.  The capacity stays, and the call does not panic.
#[verifier::external_body]
fn lru_put(cache: &mut LruCache<String, Torrent>, hash: String, torrent: Torrent) -> (previous: Option<Torrent>)
    ensures
        lru_entries(*final(cache)) == put(
            lru_entries(*old(cache)),
            lru_capacity(*old(cache)),
            hash@,
            torrent,
        ),
        lru_capacity(*final(cache)) == lru_capacity(*old(cache)),
        previous == lookup(lru_entries(*old(cache)), hash@),
    no_unwind
{
    cache.put(hash, torrent)
}

/// Calls `LruCache::peek`.  Trusted: it hands out the torrent filed under
/// `hash`, or `None` where there is none.  It takes the cache by shared
/// reference, so the list stays as it is.
#[verifier::external_body]
fn lru_peek<'a>(cache: &'a LruCache<String, Torrent>, hash: &str) -> (found: Option<&'a Torrent>)
    ensures
        match found {
            Some(torrent) => lookup(lru_entries(*cache), hash@) == Some(*torrent),
            None => lookup(lru_entries(*cache), hash@) is None,
        },
{
    cache.peek(hash)
}

/// Calls `LruCache::len`.  Trusted: it returns the number of entries.
#[verifier::external_body]
fn lru_len(cache: &LruCache<String, Torrent>) -> (len: usize)
    ensures
        len == lru_entries(*cache).len(),
{
    cache.len()
}

/// The torrents seen on earlier polls, at most a fixed number of them; the
/// one unused for longest is forgotten when room is needed.
pub struct TorrentCache {
    inner: LruCache<String, Torrent>,
}

impl TorrentCache {
    /// The hashes and torrents held, the most recently used first.
    pub closed spec fn entries(&self) -> Seq<(Seq<char>, Torrent)> {
        lru_entries(self.inner)
    }

    /// The number of torrents the cache can hold.
    pub closed spec fn capacity(&self) -> nat {
        lru_capacity(self.inner)
    }

    /// A cache never holds a hash twice, nor more than its capacity.
    #[verifier::type_invariant]
    pub open spec fn inv(&self) -> bool {
        well_formed(self.entries(), self.capacity())
    }

    /// An empty cache of the standard capacity.
    pub fn new() -> (cache: TorrentCache)
        ensures
            cache.entries().len() == 0,
            cache.capacity() == CACHE_CAPACITY,
    {
        TorrentCache { inner: lru_new(CACHE_CAPACITY) }
    }

    /// An empty cache for `capacity` torrents, where `capacity` is at least
    /// one and at most the standard capacity; `None` for any other.
    pub fn with_capacity(capacity: usize) -> (made: Option<TorrentCache>)
        ensures
            made is Some <==> 0 < capacity <= CACHE_CAPACITY,
            made matches Some(cache) ==> cache.entries().len() == 0 && cache.capacity() == capacity,
    {
        if 0 < capacity && capacity <= CACHE_CAPACITY {
            Some(TorrentCache { inner: lru_new(capacity) })
        } else {
            None
        }
    }

    /// The number of torrents held.
    pub fn len(&self) -> (len: usize)
        ensures
            len == self.entries().len(),
    {
        lru_len(&self.inner)
    }

    /// Looks up `hash` and leaves the order of use as it is.
    pub fn peek(&self, hash: &str) -> (found: Option<&Torrent>)
        ensures
            match found {
                Some(torrent) => lookup(self.entries(), hash@) == Some(*torrent),
                None => lookup(self.entries(), hash@) is None,
            },
    {
        lru_peek(&self.inner, hash)
    }

    /// Looks up `hash` and marks it as the most recently used.
    pub fn get(&mut self, hash: &str) -> (found: Option<&Torrent>)
        ensures
            final(self).entries() == touch(old(self).entries(), hash@),
            final(self).capacity() == old(self).capacity(),
            match found {
                Some(torrent) => lookup(old(self).entries(), hash@) == Some(*torrent),
                None => lookup(old(self).entries(), hash@) is None,
            },
    {
        proof {
            use_type_invariant(&*self);
            lemma_touch_well_formed(self.entries(), self.capacity(), hash@);
        }
        lru_get(&mut self.inner, hash)
    }

    /// Stores `torrent` under `hash` as the most recently used entry and
    /// returns the torrent that `hash` had before.  Where `hash` is new and
    /// the cache is full, the least recently used entry is forgotten.
    pub fn put(&mut self, hash: String, torrent: Torrent) -> (previous: Option<Torrent>)
        ensures
            final(self).entries() == put(old(self).entries(), old(self).capacity(), hash@, torrent),
            final(self).capacity() == old(self).capacity(),
            previous == lookup(old(self).entries(), hash@),
    {
        proof {
            use_type_invariant(&*self);
            lemma_put_well_formed(self.entries(), self.capacity(), hash@, torrent);
        }
        lru_put(&mut self.inner, hash, torrent)
    }
}

/// Using a key keeps a cache's entries well formed.
pub proof fn lemma_touch_well_formed<V>(entries: Seq<(Seq<char>, V)>, capacity: nat, key: Seq<char>)
    requires
        well_formed(entries, capacity),
    ensures
        well_formed(touch(entries, key), capacity),
{
}

/// Storing a value keeps a cache's entries well formed.
pub proof fn lemma_put_well_formed<V>(
    entries: Seq<(Seq<char>, V)>,
    capacity: nat,
    key: Seq<char>,
    value: V,
)
    requires
        well_formed(entries, capacity),
    ensures
        well_formed(put(entries, capacity, key, value), capacity),
{
}

/// Storing under a key that was just used gives what storing alone gives.
pub proof fn lemma_put_after_touch<V>(
    entries: Seq<(Seq<char>, V)>,
    capacity: nat,
    key: Seq<char>,
    value: V,
)
    requires
        well_formed(entries, capacity),
    ensures
        put(touch(entries, key), capacity, key, value) == put(entries, capacity, key, value),
        lookup(touch(entries, key), key) == lookup(entries, key),
{
    if holds(entries, key) {
        lemma_touch_well_formed(entries, capacity, key);
        assert(touch(entries, key)[0] == entries[slot(entries, key)]);
    }
}

/// Storing under one key adds no other key and changes no other value: a
/// key that is held afterwards was held before, with the same value.
pub proof fn lemma_put_keeps_others<V>(
    entries: Seq<(Seq<char>, V)>,
    capacity: nat,
    key: Seq<char>,
    value: V,
    other: Seq<char>,
)
    requires
        well_formed(entries, capacity),
        other != key,
        holds(put(entries, capacity, key, value), other),
    ensures
        holds(entries, other),
        lookup(put(entries, capacity, key, value), other) == lookup(entries, other),
{
    let after = put(entries, capacity, key, value);
    let t = slot(after, other);
    let from = if holds(entries, key) && t - 1 >= slot(entries, key) {
        t
    } else {
        t - 1
    };
    assert(after[t] == entries[from]);
    lemma_slot_is_unique(entries, from);
}

} // verus!
