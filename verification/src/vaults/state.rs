//! Persistent records of the vault accounting engine: the configuration,
//! the vaults, the per-account share rows, and the per-account position
//! records.

use vstd::prelude::*;

use crate::vaults::msg::AllocationLeg;
use crate::vaults::msg::StrategyConfig;

verus! {

#[derive(Clone, Debug, PartialEq, Eq)]
pub struct Config {
    pub admin: String,
    pub default_denom: String,
    pub max_fee_bps: u16,
}

/// One pooled-deposit vault. `tvl` is the total value locked and
/// `total_shares` the ownership units issued against it; the share price
/// is implicitly `tvl / total_shares`.
#[derive(Clone, Debug, PartialEq, Eq)]
pub struct Vault {
    pub id: u64,
    pub label: String,
    pub denom: String,
    pub strategy: StrategyConfig,
    pub fee_bps: u16,
    pub tvl: u128,
    pub total_shares: u128,
    pub created_at: u64,
    pub allocations: Vec<AllocationLeg>,
}

/// The position record kept per vault and account; it remembers the
/// shares minted by the account's latest deposit.
#[derive(Clone, Debug, PartialEq, Eq)]
pub struct UserPosition {
    pub vault_id: u64,
    pub address: String,
    pub shares: u128,
    pub deposited_at: u64,
}

/// One row of the share ledger: the shares an account owns in a vault.
/// The sum of the rows of a vault is the vault's `total_shares`.
#[derive(Clone, Debug, PartialEq, Eq)]
pub struct ShareEntry {
    pub vault_id: u64,
    pub address: String,
    pub shares: u128,
}

} // verus!
