//! Messages the dispatcher routes to the pool, and the records it answers
//! with, as plain values.

use vstd::prelude::*;

verus! {

/// Initialization parameters; every field is optional.
#[derive(Clone, Debug, PartialEq)]
pub struct InstantiateMsg {
    /// Identity allowed to update the oracle price; defaults to the caller.
    pub admin: Option<String>,
    /// Identity allowed to update the emission rate; defaults to the admin.
    pub updater: Option<String>,
    /// Initial emission rate; defaults to zero.
    pub rps: Option<u128>,
    /// Initial oracle price; defaults to zero.
    pub oracle: Option<u128>,
}

/// The state-changing operations.
#[derive(Clone, Debug, PartialEq)]
pub enum ExecuteMsg {
    Stake {},
    Unstake { amount: u128 },
    ClaimReward {},
    UpdateOracle { price: u128 },
    UpdateCurSumIndex {},
    UpdateUserReward { account: String },
    UpdateRewardPerSecond { new_rps: u128 },
}

/// The read-only projections.
#[derive(Clone, Debug, PartialEq)]
pub enum QueryMsg {
    ViewReward { account: String },
    ViewAPR {},
    CheckStakeAmount { address: String },
}

/// Answer to `CheckStakeAmount`.
#[derive(Clone, Copy, Debug, PartialEq, Eq, Structural)]
pub struct ViewStakeAmount {
    pub balance: u128,
}

/// A bare balance record.
#[derive(Clone, Copy, Debug, PartialEq, Eq, Structural)]
pub struct ViewBalance {
    pub balance: u128,
}

/// Answer to `ViewReward`.
#[derive(Clone, Copy, Debug, PartialEq, Eq, Structural)]
pub struct ViewRewardResponse {
    pub reward: u128,
}

/// Answer to `ViewAPR`.
#[derive(Clone, Copy, Debug, PartialEq, Eq, Structural)]
pub struct ViewAPRResponse {
    pub apr: u128,
}

/// Placeholder for the migration entry point; no migration is supported.
#[derive(Clone, Debug, PartialEq)]
pub struct MigrateMsg {}

/// One deposited coin: denomination and amount.
#[derive(Clone, Debug, PartialEq)]
pub struct Coin {
    pub denom: String,
    pub amount: u128,
}

/// An outbound transfer instruction handed to the host's transfer sink.
#[derive(Clone, Debug, PartialEq)]
pub enum TransferMsg {
    /// Return of the staked native asset to an account.
    Native { to_address: String, amount: u128 },
    /// Payout of the reward asset to an account.
    Reward { recipient: String, amount: u128 },
}

/// The answer to any query.
#[derive(Clone, Debug, PartialEq)]
pub enum QueryAnswer {
    StakeAmount(ViewStakeAmount),
    Reward(ViewRewardResponse),
    Apr(ViewAPRResponse),
}

} // verus!
