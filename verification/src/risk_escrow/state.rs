//! Persistent records of the escrow case engine.

use vstd::prelude::*;

use crate::host::Coin;
use crate::risk_escrow::msg::CaseStatus;
use crate::risk_escrow::msg::EscrowModel;
use crate::risk_escrow::msg::Resolution;

verus! {

#[derive(Clone, Debug, PartialEq, Eq)]
pub struct Config {
    pub admin: String,
    pub default_denom: String,
    pub min_approval_threshold: u32,
}

/// One escrow case: an immutable audit record whose status only ever
/// advances. The custodied amount is conceptually locked at creation.
#[derive(Clone, Debug, PartialEq, Eq)]
pub struct Case {
    pub id: u64,
    pub parties: Vec<String>,
    pub amount: Coin,
    pub model: EscrowModel,
    pub expiry_ts: Option<u64>,
    pub remark: Option<String>,
    pub created_at: u64,
    pub status: CaseStatus,
    pub approvals: Vec<String>,
    pub dispute_reason: Option<String>,
    pub resolution: Option<Resolution>,
}

/// One reputation row: a score kept per account.
#[derive(Clone, Debug, PartialEq, Eq)]
pub struct ReputationEntry {
    pub address: String,
    pub score: u64,
}

} // verus!
