//! Failures of the vault accounting engine. A command that returns one of
//! these mutates nothing.

use vstd::prelude::*;

verus! {

#[derive(Clone, Debug, PartialEq, Eq)]
pub enum ContractError {
    Std(String),
    Unauthorized,
    VaultNotFound,
    InvalidStrategy,
    InvalidAllocation,
    InsufficientShares,
    VaultLocked,
    InvalidDenom,
    InvalidAmount,
    InvalidFee,
    AllocationExceeds100,
    StrategyNotSupported,
    VaultFull,
    NoYieldToHarvest,
    RebalanceFailed,
}

} // verus!
