//! Verified core of two NEAR treasury contracts.
//!
//! * [`timelock`]: a delay queue between a DAO and every action it takes.
//!   The DAO schedules batches of function calls; anyone executes them once
//!   the delay has passed; guardians may cancel them in the meantime.
//! * [`spending_account`]: a treasury that pays NEAR and NEP-141 tokens only
//!   to whitelisted receivers, each capped by a non-expiring limit.
//!
//! The contracts are written as state machines over plain values: every
//! method takes the caller, the block time and the attached deposit as
//! arguments, returns an error where the contract rejects the call (leaving
//! the state untouched), and describes the outgoing calls it wants made.

pub mod events;
pub mod json;
pub mod table;
pub mod spending_account;
pub mod timelock;

