//! Failures of the escrow case engine. A command that returns one of
//! these mutates nothing.

use vstd::prelude::*;

verus! {

#[derive(Clone, Debug, PartialEq, Eq)]
pub enum ContractError {
    Std(String),
    Unauthorized,
    CaseNotFound,
    CaseAlreadyResolved,
    CaseExpired,
    CaseNotExpired,
    InvalidEscrowModel,
    InsufficientApprovals,
    InvalidResolution,
    CaseNotInDispute,
    InvalidParty,
    InvalidAmount,
    InvalidDenom,
    CaseLocked,
}

} // verus!
