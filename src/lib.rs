//! A round-based ballot ledger: candidates are registered, each voter casts
//! at most one vote per round, and a round transition archives the winner and
//! starts afresh.
use vstd::prelude::*;

pub mod model;
pub mod ledger;
pub mod laws;

pub use ledger::VoteApp;
