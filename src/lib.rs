//! Content synchronisation cache for a word dictionary and a puzzle bank.
//!
//! The library holds the decisions of the cache: how a resource is
//! reconciled with its remote copy, how the hash snapshot is written and
//! read back, and how the synchronised text is turned into the word set and
//! the ordered puzzle index. Network and file access stay with the caller,
//! which hands the results of that work to the functions here.
pub mod text;
pub mod cache;
pub mod snapshot;
pub mod errors;
pub mod sync;
pub mod coordinator;
pub mod paths;
