//! Reconciliation core of a torrent watcher.
//!
//! On every poll the watcher receives the complete list of torrents known to
//! the remote client, compares it with what it saw on earlier polls and
//! derives the directories whose cached listing must be dropped downstream.
//! This crate holds the part of that cycle that decides: the bounded cache of
//! previously seen records, the classification of each incoming record, the
//! normalisation of directories and the two-state poll schedule.  Transport,
//! configuration and logging are left to the caller.

pub mod cache;
pub mod diff;
pub mod endpoints;
pub mod keyed;
pub mod laws;
pub mod path;
pub mod poller;
pub mod torrents;
