//! A small weighted-membership governance engine.
//!
//! Members hold shares; an administrator may mint shares during a bootstrap
//! window; anyone may submit proposals made of ordered instructions; members
//! vote with their current share balance; a proposal whose tally is a strict
//! majority of the total supply runs before its expiry.
//!
//! The engine is a pure state machine over an in-memory store. The host
//! supplies the caller, the ledger time and the engine's own identity with
//! each call, and performs the calls that a proposal forwards to other
//! components.

pub mod types;
pub mod ledger;
pub mod model;
pub mod dao;
pub mod laws;

pub use dao::DaoContract;
pub use ledger::Ledger;
pub use types::{Address, Bytes32, Error, Holding, Proposal, ProposalInstr, ProposalVote, Val};
