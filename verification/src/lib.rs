//! Correlation of build-completion and session-start markers from a
//! structured event log into enriched build records.
//!
//! The engine tails an event log, remembers the most recent session-start
//! marker, and for every build-completion marker synthesizes one record
//! carrying the derivation name, output paths, build duration, host
//! identity and the current session id.

pub mod errors;
pub mod strutil;
pub mod paths;
pub mod timing;
pub mod marker;
pub mod host;
pub mod engine;
