//! Content-addressed tracking core for large-file versioning.
//!
//! The library computes a stable content identity for a file's bytes,
//! derives the sharded cache location for that identity, renders the
//! sidecar manifest document, keeps the ignore list in sync, filters the
//! control directory out of directory walks, and drives the whole "add"
//! operation as a state machine whose filesystem actions are carried out
//! by the caller.

pub mod bytes;
pub mod config;
pub mod hashing;
pub mod ignore;
pub mod manifest;
pub mod orchestrator;
pub mod store;
pub mod walk;
