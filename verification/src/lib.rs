//! Core of a reactive repository-status watcher.
//!
//! The library turns a noisy stream of filesystem notifications into a
//! deduplicated sequence of status snapshots.  It decides which of several
//! concurrent processes recomputes status (leader) and which only observe a
//! shared persisted snapshot (followers), and it defines the codec for that
//! shared snapshot.  Everything here is pure logic over plain values; the
//! surrounding binary performs the actual filesystem, locking and channel
//! work and feeds the results in as events.

pub mod chars;
pub mod cli;
pub mod codec;
pub mod digits;
pub mod engine;
pub mod format;
pub mod status;
pub mod types;
pub mod watcher;
