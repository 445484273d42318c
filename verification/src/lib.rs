//! The table of contents of a vector storage: which collections there are, which aliases name
//! them, and how requests and metadata operations are carried out.
//!
//! The library decides; it does not touch the disk, the network or the collections. Where an
//! operation takes such work, the functions here say what is to be done next and are told what
//! came of it.
//!
//! - `toc`: the table, lookups, and the calls that go to a collection.
//! - `meta_ops`, `creation`, `alias_changes`: operations on collections and aliases.
//! - `snapshot`: bringing the table to the state of a snapshot.
//! - `model`: the mathematical model of the table.
//! - `laws`, `creation_laws`, `alias_laws`, `snapshot_laws`, `snapshot_state_laws`,
//!   `restart_laws`: what holds of the whole.
//! - `lookup_laws`, `operation_laws`, `alias_batch_laws`, `snapshot_call_laws`, `data_laws`: what
//!   the calls come to, told by what is handed to them and by what the table holds.

pub mod alias_batch_laws;
pub mod alias_changes;
pub mod alias_laws;
pub mod alias_mapping;
pub mod assoc_map;
pub mod config;
pub mod consensus_state;
pub mod creation;
pub mod creation_laws;
pub mod data_laws;
pub mod errors;
pub mod laws;
pub mod lookup_laws;
pub mod meta_ops;
pub mod model;
pub mod operation_laws;
pub mod operations;
pub mod restart_laws;
pub mod shard_distribution;
pub mod snapshot;
pub mod snapshot_call_laws;
pub mod snapshot_laws;
pub mod snapshot_state_laws;
pub mod toc;
