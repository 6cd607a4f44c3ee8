//! The records exchanged with the remote torrent client.

use vstd::prelude::*;

use crate::keyed::{distinct_keys, holds, lemma_slot_is_unique, lookup, slot};

verus! {

/// Bits of the exponent field of an IEEE 754 double.
pub const EXPONENT_MASK: u64 = 0x7ff0_0000_0000_0000;

/// Bits of the fraction field of an IEEE 754 double.
pub const FRACTION_MASK: u64 = 0x000f_ffff_ffff_ffff;

/// Every bit of an IEEE 754 double but the sign.
pub const MAGNITUDE_MASK: u64 = 0x7fff_ffff_ffff_ffff;

/// State flags that the remote client attaches to a torrent.
#[derive(Debug, Clone, PartialEq, Eq)]
pub enum Status {
    Complete,
    Downloading,
    Active,
    Inactive,
    Seeding,
    Stopped,
    /// A flag this crate has no name for, kept as received.
    Other(String),
}

/// Labels set on a torrent by the programs that queued it.
#[derive(Debug, Clone, Copy, PartialEq, Eq)]
pub enum Tag {
    Radarr,
    RadarrImported,
    Sonarr,
    Sonarr4K,
    Sonarr4KImported,
    SonarrImported,
    TagSonarr4KImported,
}

/// One torrent as the remote client reports it.
///
/// The two fractional quantities, `percent_complete` and `ratio`, are held as
/// the bit pattern of the IEEE 754 double that the client sent, so that a
/// record is carried without loss and compared without rounding.
#[derive(Debug, Clone, PartialEq, Eq)]
pub struct Torrent {
    pub bytes_done: i64,
    pub date_active: i64,
    pub date_added: i64,
    pub date_created: i64,
    pub date_finished: i64,
    /// Absolute directory of the torrent's data, `None` when the reported
    /// directory is not valid text.
    pub directory: Option<String>,
    pub down_rate: i64,
    pub down_total: i64,
    pub eta: i64,
    pub hash: String,
    pub is_private: bool,
    pub is_initial_seeding: bool,
    pub is_sequential: bool,
    pub message: String,
    pub name: String,
    pub peers_connected: i64,
    pub peers_total: i64,
    /// Completion in percent, as the bits of a double.
    pub percent_complete: u64,
    pub priority: i64,
    /// Upload ratio, as the bits of a double.
    pub ratio: u64,
    pub seeds_connected: i64,
    pub seeds_total: i64,
    pub size_bytes: i64,
    pub status: Vec<Status>,
    pub tags: Vec<Tag>,
    pub tracker_ur_is: Vec<String>,
    pub up_rate: i64,
    pub up_total: i64,
}

/// The complete remote state at one poll: every torrent under the hash that
/// identifies it.  No hash occurs twice, and the records are kept in the order
/// in which they are to be processed.
#[derive(Debug, PartialEq, Eq)]
pub struct Torrents {
    id: i64,
    torrents: Vec<(String, Torrent)>,
}

/// The records of a list as the contracts speak of them: each hash as text.
pub open spec fn records_of(listed: Seq<(String, Torrent)>) -> Seq<(Seq<char>, Torrent)> {
    listed.map_values(|entry: (String, Torrent)| (entry.0@, entry.1))
}

/// The records after `value` was entered under `key`: the new record stands
/// at the end, and the one that `key` had is gone.
pub open spec fn entered(
    records: Seq<(Seq<char>, Torrent)>,
    key: Seq<char>,
    value: Torrent,
) -> Seq<(Seq<char>, Torrent)> {
    if holds(records, key) {
        records.remove(slot(records, key)).push((key, value))
    } else {
        records.push((key, value))
    }
}

impl Torrents {
    /// The number the remote client gave the snapshot.
    pub closed spec fn ident(&self) -> i64 {
        self.id
    }

    /// The records of the snapshot in processing order, each hash as text.
    pub closed spec fn records(&self) -> Seq<(Seq<char>, Torrent)> {
        records_of(self.torrents@)
    }

    /// A snapshot names no hash twice.
    #[verifier::type_invariant]
    pub open spec fn inv(&self) -> bool {
        distinct_keys(self.records())
    }

    /// A snapshot without records.
    pub fn new(id: i64) -> (snapshot: Torrents)
        ensures
            snapshot.ident() == id,
            snapshot.records().len() == 0,
    {
        Torrents { id, torrents: Vec::new() }
    }

    /// The number the remote client gave the snapshot.
    pub fn id(&self) -> (id: i64)
        ensures
            id == self.ident(),
    {
        self.id
    }

    /// The number of records.
    pub fn len(&self) -> (len: usize)
        ensures
            len == self.records().len(),
    {
        self.torrents.len()
    }

    /// Where the record of `hash` stands, if the snapshot has one.
    fn position(&self, hash: &String) -> (found: Option<usize>)
        ensures
            found is Some <==> holds(self.records(), hash@),
            found matches Some(at) ==> at == slot(self.records(), hash@),
    {
        proof {
            use_type_invariant(self);
        }
        let mut at: usize = 0;
        while at < self.torrents.len()
            invariant
                at <= self.torrents.len(),
                distinct_keys(self.records()),
                forall|i: int| 0 <= i < at ==> (#[trigger] self.records()[i]).0 != hash@,
            decreases self.torrents.len() - at,
        {
            if self.torrents[at].0 == *hash {
                proof {
                    lemma_slot_is_unique(self.records(), at as int);
                }
                return Some(at);
            }
            at += 1;
        }
        None
    }

    /// The record of `hash`, if the snapshot has one.
    pub fn get(&self, hash: &String) -> (found: Option<&Torrent>)
        ensures
            match found {
                Some(torrent) => lookup(self.records(), hash@) == Some(*torrent),
                None => lookup(self.records(), hash@) is None,
            },
    {
        match self.position(hash) {
            Some(at) => Some(&self.torrents[at].1),
            None => None,
        }
    }

    /// Enters `torrent` under `hash`, as the last record to be processed, and
    /// returns the record that `hash` had before.
    pub fn insert(&mut self, hash: String, torrent: Torrent) -> (previous: Option<Torrent>)
        ensures
            final(self).records() == entered(old(self).records(), hash@, torrent),
            final(self).ident() == old(self).ident(),
            previous == lookup(old(self).records(), hash@),
    {
        proof {
            use_type_invariant(&*self);
        }
        let ghost before = self.records();
        let found = self.position(&hash);
        let mut list: Vec<(String, Torrent)> = Vec::new();
        std::mem::swap(&mut self.torrents, &mut list);
        let previous = match found {
            Some(at) => {
                let gone = list.remove(at);
                Some(gone.1)
            },
            None => None,
        };
        let ghost key = hash@;
        list.push((hash, torrent));
        proof {
            let after = records_of(list@);
            assert forall|i: int, j: int| 0 <= i < j < after.len() implies (#[trigger] after[i]).0 != (
            #[trigger] after[j]).0 by {
                if holds(before, key) {
                    let s = slot(before, key);
                    assert(after[i] == before[if i < s { i } else { i + 1 }]);
                    if j < after.len() - 1 {
                        assert(after[j] == before[if j < s { j } else { j + 1 }]);
                    }
                } else {
                    assert(after[i] == before[i]);
                    if j < after.len() - 1 {
                        assert(after[j] == before[j]);
                    }
                }
            }
        }
        self.torrents = list;
        previous
    }

    /// Hands the records out in processing order.
    pub fn into_records(self) -> (listed: Vec<(String, Torrent)>)
        ensures
            records_of(listed@) == self.records(),
            distinct_keys(self.records()),
    {
        proof {
            use_type_invariant(&self);
        }
        self.torrents
    }
}

/// Whether `bits` encodes a NaN.
pub open spec fn is_nan(bits: u64) -> bool {
    bits & EXPONENT_MASK == EXPONENT_MASK && bits & FRACTION_MASK != 0
}

/// Whether `bits` encodes positive or negative zero.
pub open spec fn is_zero(bits: u64) -> bool {
    bits & MAGNITUDE_MASK == 0
}

/// Equality of two doubles given by their bits: a NaN equals nothing, the two
/// zeros equal each other, and every other number equals only itself.
pub open spec fn same_number(a: u64, b: u64) -> bool {
    !is_nan(a) && !is_nan(b) && (a == b || (is_zero(a) && is_zero(b)))
}

/// Whether a completion moved between two observations.  The comparison is
/// exact: no tolerance is applied.
pub open spec fn percent_differs(previous: u64, current: u64) -> bool {
    !same_number(previous, current)
}

/// Decides whether the completion percentage `current` differs from the one
/// seen before.
pub fn percent_changed(previous: u64, current: u64) -> (changed: bool)
    ensures
        changed == percent_differs(previous, current),
{
    let previous_nan = previous & EXPONENT_MASK == EXPONENT_MASK && previous & FRACTION_MASK != 0;
    let current_nan = current & EXPONENT_MASK == EXPONENT_MASK && current & FRACTION_MASK != 0;
    if previous_nan || current_nan {
        true
    } else if previous == current {
        false
    } else {
        !(previous & MAGNITUDE_MASK == 0 && current & MAGNITUDE_MASK == 0)
    }
}

} // verus!
