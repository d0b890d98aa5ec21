//! Lazy reward-accrual accounting for a single-asset staking pool.
//!
//! One global scaled index (`cur_sum_index`) accumulates reward-per-unit-staked;
//! each account keeps a checkpoint of the index at its last settlement, so an
//! account's newly owed reward is `(index - checkpoint) * balance / PRECISION`,
//! an O(1) settlement regardless of how many accounts exist.

pub mod contract;
pub mod error;
pub mod laws;
pub mod msg;
pub mod state;
