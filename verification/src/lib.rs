//! Area and session tracking for a personal workspace.
//!
//! A workspace is split into named areas. One of them is current, at most one
//! session timer runs at a time, and every closed session lands in an
//! append-only ledger from which totals and history are derived.

pub mod browser;
pub mod config;
pub mod error;
pub mod flashcards;
pub mod laws;
pub mod layout;
pub mod ledger;
pub mod pointer;
pub mod scaffold;
pub mod session;
pub mod stats;
pub mod timer;
pub mod timestamp;
pub mod tracker;
