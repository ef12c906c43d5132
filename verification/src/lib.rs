//! A persistent store of named counters ("tallies").
//!
//! Each counter carries a current count, a default step, and a display
//! template. Counters live in an embedded sqlite database; one counter is
//! designated the default through an append-only ledger. A recursive
//! renderer substitutes counter values (including references to other
//! counters) into display templates, rejecting cyclic references.

pub mod database;
pub mod errors;
pub mod models;
pub mod num;
pub mod template;
