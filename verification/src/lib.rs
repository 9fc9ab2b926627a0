//! Turns observed SQL schema events into versioned, declarative migration
//! descriptors: classification of statements, merging of related changes and
//! rendering of forward and rollback operations.

pub mod config;
pub mod db;
pub mod metadata;
pub mod migration;
pub mod optimizer;
pub mod replication;
pub mod schema;
pub mod state;
pub mod text;
pub mod wal;
