//! Client/server contract layer for a shell-history synchronization service.
//!
//! The crate fixes the message shapes exchanged between a local history store
//! and a remote server, the semantics of the delta-sync protocol (idempotent
//! inserts, two-clock cursors, tombstoned deletions), and the client-side
//! rules for locating configuration and data directories.

pub mod api;
pub mod error;
pub mod ids;
pub mod paths;
pub mod server;
pub mod store;
