//! The core rules of an object store: what its catalog reads and writes, what
//! Object Lock holds and who releases it, how a read is checked against the
//! digest recorded at commit, and how audit records are committed to in a Merkle
//! tree.
//!
//! Storage, the clock and the network stay outside. Where a rule needs them, a
//! function takes what they gave, or says what it needs done next.

pub mod audit;
pub mod catalog;
pub mod digest;
pub mod error;
pub mod integrity;
pub mod integrity_laws;
pub mod keys;
pub mod lock;
pub mod lock_laws;
pub mod merkle;
pub mod merkle_laws;
pub mod mutation_event;
pub mod redb_open;
pub mod retention;
pub mod schema;
pub mod time;
pub mod tx;
pub mod tx_laws;
pub mod types;
