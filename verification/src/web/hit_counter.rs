//! The write-behind hit counter.
//!
//! Request handlers record views through a channel; a single aggregator
//! merges them into an in-memory tally and hands the tally out in batches,
//! which a commit run writes to the persistent store.

pub mod accounting;
pub mod aggregator;
pub mod channel;
pub mod commit;
pub mod ledger;
pub mod pending;
