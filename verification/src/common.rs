//! Shared pieces used across the ledger components: the error taxonomy,
//! event builders, proportional-share arithmetic, time helpers, input
//! validation, and the record shapes that more than one component speaks
//! of.

pub mod errors;
pub mod events;
pub mod math;
pub mod time;
pub mod validation;

use vstd::prelude::*;

use crate::host::Coin;
use crate::host::Timestamp;

verus! {

/// Component configuration: the administrator, the accepted denomination,
/// and a default fee in basis points.
#[derive(Clone, Debug, PartialEq, Eq)]
pub struct Config {
    pub admin: String,
    pub default_denom: String,
    pub fee_bps: u16,
}

/// A single-sender, single-recipient timed transfer record.
#[derive(Clone, Debug, PartialEq, Eq)]
pub struct TransferInfo {
    pub id: u64,
    pub sender: String,
    pub recipient: String,
    pub amount: Coin,
    pub remark: Option<String>,
    pub created_at: Timestamp,
    pub expiry_ts: Option<Timestamp>,
    pub claimed: bool,
    pub refunded: bool,
}

/// A pooled-contribution record with a funding target.
#[derive(Clone, Debug, PartialEq, Eq)]
pub struct PoolInfo {
    pub id: u64,
    pub creator: String,
    pub target: Coin,
    pub current: u128,
    pub participants: Vec<String>,
    pub contributions: Vec<(String, u128)>,
    pub memo: Option<String>,
    pub created_at: Timestamp,
    pub expiry_ts: Option<Timestamp>,
    pub distributed: bool,
    pub cancelled: bool,
}

/// A goal-based savings pot record.
#[derive(Clone, Debug, PartialEq, Eq)]
pub struct PotInfo {
    pub id: u64,
    pub owner: String,
    pub goal: Coin,
    pub current: u128,
    pub label: Option<String>,
    pub created_at: Timestamp,
    pub closed: bool,
    pub broken: bool,
}

/// A pooled-deposit vault record.
#[derive(Clone, Debug, PartialEq, Eq)]
pub struct VaultInfo {
    pub id: u64,
    pub label: String,
    pub denom: String,
    pub strategy: StrategyConfig,
    pub fee_bps: u16,
    pub tvl: u128,
    pub total_shares: u128,
    pub created_at: Timestamp,
    pub allocations: Vec<AllocationLeg>,
}

/// A capital-allocation strategy: a built-in preset or explicit legs.
#[derive(Clone, Debug, PartialEq, Eq)]
pub enum StrategyConfig {
    Conservative,
    Balanced,
    Aggressive,
    Custom { allocations: Vec<AllocationLeg> },
}

/// One allocation leg: a protocol, its weight in basis points, and the
/// amount currently tracked against it.
#[derive(Clone, Debug, PartialEq, Eq)]
pub struct AllocationLeg {
    pub protocol: ProtocolType,
    pub weight_bps: u16,
    pub current_amount: u128,
}

/// The kind of protocol an allocation leg points at.
#[derive(Clone, Copy, Debug, PartialEq, Eq, Structural)]
pub enum ProtocolType {
    Staking,
    Lending,
    LiquidityPool,
    PerpsHedge,
    Cash,
}

} // verus!
