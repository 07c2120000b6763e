//! The shared error taxonomy for the validation helpers. Every failure
//! aborts the whole invocation; nothing is mutated when one of these is
//! returned.

use vstd::prelude::*;

verus! {

#[derive(Clone, Debug, PartialEq, Eq)]
pub enum ContractError {
    Std(String),
    Unauthorized {},
    InvalidDenom { expected: String, actual: String },
    InsufficientFunds { required: String, available: String },
    TransferNotFound { id: u64 },
    TransferAlreadyClaimed { id: u64 },
    TransferAlreadyRefunded { id: u64 },
    TransferExpired { id: u64 },
    TransferNotExpired { id: u64 },
    PoolNotFound { id: u64 },
    PoolAlreadyDistributed { id: u64 },
    PoolTargetNotReached { id: u64 },
    PotNotFound { id: u64 },
    PotAlreadyClosed { id: u64 },
    VaultNotFound { id: u64 },
    InvalidAllocation {},
    InvalidFee {},
    RebalanceInProgress {},
}

} // verus!
