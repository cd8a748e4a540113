//! Core of a multiplayer jigsaw-puzzle server.
//!
//! Browser clients create puzzles, join them by a short identifier, drag
//! pieces around a shared canvas and merge pieces into connected groups.
//! This crate holds the verified heart of that server: the wire codec for
//! the text and binary framings, the per-connection session state machine,
//! the row-level semantics of every puzzle mutation, and the process-wide
//! presence bookkeeping.  The unverified binary around it only moves bytes
//! between this crate, the sockets and the row store.

pub mod actions;
pub mod commands;
pub mod digest;
pub mod error;
pub mod ids;
pub mod numbers;
pub mod presence;
pub mod puzzle;
pub mod server;
pub mod session;
pub mod snapshot;
pub mod table;
pub mod tasks;
