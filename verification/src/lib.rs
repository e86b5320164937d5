//! A crowdfunded, curated collaborative canvas: a fixed 8x8 grid of regions,
//! each independently funded by contributors, bid on by artists, and awarded
//! through contribution-weighted voting.
//!
//! The library is the state machine governing the Season -> Region -> Bid ->
//! Contribution lifecycle and the custody of pooled funds. Every operation
//! validates its preconditions against the current state and either applies an
//! atomic update or returns an error with no observable change.

pub mod errors;
pub mod state;
pub mod model;
pub mod canvas;
pub mod laws;
