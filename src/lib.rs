//! Custody and exchange of fungible and non-fungible assets, written as
//! verified state transitions.
//!
//! Each operation takes the current state and the facts the host supplies
//! (caller identity, block time, attached funds, queried owner) and either
//! fails, leaving the state untouched, or updates the state and returns the
//! batch of outbound instructions that the host must execute atomically with
//! that update.

pub mod types;
pub mod auth;
pub mod ledger;
pub mod rwa_nft;
pub mod staking;
pub mod gold_swap;
pub mod liquidity_pool;
