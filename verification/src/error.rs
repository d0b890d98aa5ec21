//! Operation failures; any error aborts the whole operation with no partial
//! state change.

use vstd::prelude::*;

verus! {

#[derive(Clone, Copy, Debug, PartialEq, Eq, Structural)]
pub enum ContractError {
    /// Caller lacks the role the administrative operation requires.
    Unauthorized {},
    /// A deposit in an asset other than the pool's staking asset.
    WrongNativeToken {},
    /// A deposit of no funds, or of zero amount.
    WrongStakeAmount {},
    /// A withdrawal exceeding the caller's staked balance.
    NotEnoughBalance {},
    /// The APR projection is undefined: nothing is staked, or the oracle
    /// price is zero.
    Undefined {},
}

impl ContractError {
    /// Human-readable description of the error.
    pub fn message(&self) -> (r: &'static str)
        ensures
            *self matches ContractError::Unauthorized {} ==> r@ == "Unauthorized"@,
            *self matches ContractError::WrongNativeToken {} ==> r@ == "Only ORAI is acceptable"@,
            *self matches ContractError::WrongStakeAmount {} ==> r@
                == "Staked amount must be positive"@,
            *self matches ContractError::NotEnoughBalance {} ==> r@ == "Not enough balance"@,
            *self matches ContractError::Undefined {} ==> r@ == "APR is not defined"@,
    {
        match self {
            ContractError::Unauthorized {} => "Unauthorized",
            ContractError::WrongNativeToken {} => "Only ORAI is acceptable",
            ContractError::WrongStakeAmount {} => "Staked amount must be positive",
            ContractError::NotEnoughBalance {} => "Not enough balance",
            ContractError::Undefined {} => "APR is not defined",
        }
    }
}

} // verus!
