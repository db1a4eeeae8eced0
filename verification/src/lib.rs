//! A weighted-voting governance engine.
//!
//! A group of addresses, each holding an integer voting weight, submits
//! proposals carrying opaque action payloads; members cast weighted votes;
//! once a threshold/quorum rule is satisfied the proposal may be executed.
//! Votes are tallied against the membership as it stood when the proposal
//! was opened, which the height-indexed snapshot store in [`members`]
//! makes possible.

pub mod ballots;
pub mod dao;
pub mod error;
pub mod expiration;
pub mod math;
pub mod members;
pub mod msg;
pub mod order;
pub mod proposal;
pub mod queries;
pub mod threshold;
pub mod votes;

use vstd::prelude::*;

verus! {

} // verus!
