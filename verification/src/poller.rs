//! The poll schedule: wait, fetch, compare, dispatch, and wait again.
//!
//! The watcher decides and its driver acts: the driver performs the action
//! it was given, reports what came of it as an event, and is told the next
//! action.  A poll fetches first and dispatches afterwards, and polls cannot
//! overlap: a poll begins only when the timer finds the watcher idle, and
//! the watcher is idle again only when the poll before has failed to fetch
//! or has finished dispatching.

use vstd::prelude::*;

use crate::cache::{TorrentCache, CACHE_CAPACITY};
use crate::diff::{describes, entries_after, process_torrents, Change};
use crate::torrents::{Torrent, Torrents};

verus! {

/// Seconds between two polls where nothing else is configured.
pub const DEFAULT_POLL_INTERVAL: u64 = 60;

/// How far a poll has come.
#[derive(Debug, Clone, Copy, PartialEq, Eq, Structural)]
pub enum PollPhase {
    /// The snapshot has been asked for.
    Fetching,
    /// The snapshot has been compared and its commands are being sent.
    Dispatching,
}

/// Where the watcher stands in its cycle.
#[derive(Debug, Clone, Copy, PartialEq, Eq, Structural)]
pub enum PollState {
    /// Waiting for the interval to pass.
    Idle,
    /// In a poll.
    Polling(PollPhase),
}

/// What the outside world reports to the watcher.
#[derive(Debug, PartialEq, Eq)]
pub enum PollEvent {
    /// The interval has passed.
    TimerExpired,
    /// The snapshot that was asked for has arrived.
    Fetched(Torrents),
    /// The snapshot could not be had: the session was rejected, the
    /// transport failed, or the answer could not be read.
    FetchFailed,
    /// Every command of the poll has been sent, whether or not it succeeded.
    Dispatched,
}

/// What the watcher asks the outside world to do next.
#[derive(Debug, Clone, PartialEq, Eq)]
pub enum PollAction {
    /// Nothing: the event came out of turn and was dropped.
    Ignore,
    /// Retrieve the snapshot and report `Fetched` or `FetchFailed`.
    Fetch,
    /// Send the command of every finding that has one, once each and in
    /// this order, going on to the next when one fails; then report
    /// `Dispatched`.
    Dispatch { changes: Vec<Change> },
    /// Wait `seconds` and report `TimerExpired`.
    Wait { seconds: u64 },
}

/// The state the watcher is in after `event` reached it in `state`.
pub open spec fn next_state(state: PollState, event: PollEvent) -> PollState {
    match (state, event) {
        (PollState::Idle, PollEvent::TimerExpired) => PollState::Polling(PollPhase::Fetching),
        (PollState::Polling(PollPhase::Fetching), PollEvent::Fetched(_)) => PollState::Polling(
            PollPhase::Dispatching,
        ),
        (PollState::Polling(PollPhase::Fetching), PollEvent::FetchFailed) => PollState::Idle,
        (PollState::Polling(PollPhase::Dispatching), PollEvent::Dispatched) => PollState::Idle,
        _ => state,
    }
}

/// The cache after `event` reached the watcher in `state`: only a snapshot
/// that was asked for changes it.
pub open spec fn next_entries(
    state: PollState,
    event: PollEvent,
    entries: Seq<(Seq<char>, Torrent)>,
    capacity: nat,
) -> Seq<(Seq<char>, Torrent)> {
    match (state, event) {
        (PollState::Polling(PollPhase::Fetching), PollEvent::Fetched(snapshot)) => entries_after(
            entries,
            capacity,
            snapshot.records(),
        ),
        _ => entries,
    }
}

/// Whether `action` is what the watcher asks for when `event` reaches it in
/// `state`, its cache holding `entries`.
pub open spec fn answers(
    action: PollAction,
    state: PollState,
    event: PollEvent,
    entries: Seq<(Seq<char>, Torrent)>,
    capacity: nat,
    mount: Seq<char>,
    interval: u64,
) -> bool {
    match (state, event) {
        (PollState::Idle, PollEvent::TimerExpired) => action is Fetch,
        (PollState::Polling(PollPhase::Fetching), PollEvent::Fetched(snapshot)) => {
            &&& action matches PollAction::Dispatch { changes }
            &&& changes@.len() == snapshot.records().len()
            &&& forall|i: int|
                0 <= i < changes@.len() ==> describes(
                    #[trigger] changes@[i],
                    entries_after(entries, capacity, snapshot.records().take(i)),
                    mount,
                    snapshot.records()[i].0,
                    snapshot.records()[i].1,
                )
        },
        (PollState::Polling(PollPhase::Fetching), PollEvent::FetchFailed) => action == (
        PollAction::Wait { seconds: interval }),
        (PollState::Polling(PollPhase::Dispatching), PollEvent::Dispatched) => action == (
        PollAction::Wait { seconds: interval }),
        _ => action is Ignore,
    }
}

/// The watcher: its place in the cycle, what it remembers, and the two
/// settings its decisions depend on.
pub struct Poller {
    state: PollState,
    cache: TorrentCache,
    mount_directory: String,
    poll_interval: u64,
}

impl Poller {
    /// Where the watcher stands in its cycle.
    pub closed spec fn current(&self) -> PollState {
        self.state
    }

    /// The hashes and torrents remembered, the most recently used first.
    pub closed spec fn entries(&self) -> Seq<(Seq<char>, Torrent)> {
        self.cache.entries()
    }

    /// The number of torrents that can be remembered.
    pub closed spec fn capacity(&self) -> nat {
        self.cache.capacity()
    }

    /// The directory that stands for the root downstream.
    pub closed spec fn mount(&self) -> Seq<char> {
        self.mount_directory@
    }

    /// Seconds between two polls.
    pub closed spec fn interval(&self) -> u64 {
        self.poll_interval
    }

    /// A watcher that remembers nothing yet and waits for its first interval
    /// to pass.
    pub fn new(mount_directory: String, poll_interval: u64) -> (poller: Poller)
        ensures
            poller.current() == PollState::Idle,
            poller.entries().len() == 0,
            poller.capacity() == CACHE_CAPACITY,
            poller.mount() == mount_directory@,
            poller.interval() == poll_interval,
    {
        Poller { state: PollState::Idle, cache: TorrentCache::new(), mount_directory, poll_interval }
    }

    /// What an idle watcher is waiting for: the first thing to do after
    /// `new`, so that one full interval passes before the first poll.
    pub fn wait(&self) -> (action: PollAction)
        ensures
            action == (PollAction::Wait { seconds: self.interval() }),
    {
        PollAction::Wait { seconds: self.poll_interval }
    }

    /// Where the watcher stands in its cycle.
    pub fn state(&self) -> (state: PollState)
        ensures
            state == self.current(),
    {
        self.state
    }

    /// Seconds between two polls.
    pub fn poll_interval(&self) -> (seconds: u64)
        ensures
            seconds == self.interval(),
    {
        self.poll_interval
    }

    /// The directory that stands for the root downstream.
    pub fn mount_directory(&self) -> (mount: &str)
        ensures
            mount@ == self.mount(),
    {
        self.mount_directory.as_str()
    }

    /// What the watcher remembers.
    pub fn cache(&self) -> (cache: &TorrentCache)
        ensures
            cache.entries() == self.entries(),
            cache.capacity() == self.capacity(),
    {
        &self.cache
    }

    /// Takes `event` and says what to do next.
    ///
    /// The timer starts a poll when the watcher is idle.  In a poll, the
    /// snapshot is compared with the cache and stored in it, and its findings
    /// are handed out for dispatch; a failed fetch leaves the cache as it
    /// was and asks for no command.  The poll ends when the fetch has failed
    /// or the dispatch is over, and the next begins one interval later.  An
    /// event out of turn changes nothing.
    pub fn step(&mut self, event: PollEvent) -> (action: PollAction)
        ensures
            final(self).current() == next_state(old(self).current(), event),
            final(self).entries() == next_entries(
                old(self).current(),
                event,
                old(self).entries(),
                old(self).capacity(),
            ),
            final(self).capacity() == old(self).capacity(),
            final(self).mount() == old(self).mount(),
            final(self).interval() == old(self).interval(),
            answers(
                action,
                old(self).current(),
                event,
                old(self).entries(),
                old(self).capacity(),
                old(self).mount(),
                old(self).interval(),
            ),
    {
        match self.state {
            PollState::Idle => match event {
                PollEvent::TimerExpired => {
                    self.state = PollState::Polling(PollPhase::Fetching);
                    PollAction::Fetch
                },
                _ => PollAction::Ignore,
            },
            PollState::Polling(PollPhase::Fetching) => match event {
                PollEvent::Fetched(snapshot) => {
                    let changes = process_torrents(
                        &mut self.cache,
                        self.mount_directory.as_str(),
                        snapshot,
                    );
                    self.state = PollState::Polling(PollPhase::Dispatching);
                    PollAction::Dispatch { changes }
                },
                PollEvent::FetchFailed => {
                    self.state = PollState::Idle;
                    PollAction::Wait { seconds: self.poll_interval }
                },
                _ => PollAction::Ignore,
            },
            PollState::Polling(PollPhase::Dispatching) => match event {
                PollEvent::Dispatched => {
                    self.state = PollState::Idle;
                    PollAction::Wait { seconds: self.poll_interval }
                },
                _ => PollAction::Ignore,
            },
        }
    }
}

} // verus!
