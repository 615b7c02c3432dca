//! A decentralized-governance engine: a membership pool creates proposals,
//! votes on them with power derived from delegated membership credentials,
//! and resolves each proposal to a final outcome.
//!
//! The engine is deterministic: proposal identity is a content hash, voting
//! power is reconstructible at any past block from an append-only delegation
//! log, every vote is counted at most once per account per proposal, and a
//! proposal's lifecycle state is a pure function of stored facts and the
//! current logical time.

pub mod codec;
pub mod delegation;
pub mod events;
pub mod gate;
pub mod governor;
pub mod hashing;
pub mod laws;
pub mod state_machine;
pub mod store;
pub mod types;
