//! A single-node causal event sequencer: a persistent, append-only log that
//! ingests unordered event packets, assigns each a total-order sequence
//! number, verifies payload integrity, and persists both the order index and
//! the raw payloads into a memory-mapped dual-region journal.

pub mod alerts;
pub mod auth;
pub mod cursor;
pub mod dashboards;
pub mod event;
pub mod journal;
pub mod query;
pub mod sequencer;
pub mod util;
