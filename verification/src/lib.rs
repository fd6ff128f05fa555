//! Verified core of a pooled liquid-staking ledger.
//!
//! A pool of depositors delegates a native token to a changing set of
//! validators.  Each deposit is tracked as a *position* (identified by the id
//! of an externally minted receipt).  This crate holds the allocation and
//! claims logic: choosing the validator that receives a new bond, splitting an
//! unbond over several validators, tracking per-position claims until they
//! mature, and retiring validators.  All chain interaction (storage, queries,
//! message dispatch) stays outside; callers pass in the chain data a step
//! needs and receive the instructions to send.

pub mod agent;
pub mod contract;
pub mod error;
pub mod msg;
pub mod nft;
pub mod order;
pub mod split;
pub mod state;
pub mod sums;
pub mod text;
