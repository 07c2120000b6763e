//! Command and query payloads of the vault accounting engine, and the
//! ghost views the query contracts are stated over.

use vstd::prelude::*;

use crate::host::Coin;

verus! {

#[derive(Clone, Debug, PartialEq, Eq)]
pub struct InstantiateMsg {
    pub admin: Option<String>,
    pub default_denom: String,
    pub max_fee_bps: Option<u16>,
}

#[derive(Clone, Debug, PartialEq, Eq)]
pub enum ExecuteMsg {
    CreateVault { label: String, denom: String, strategy: StrategyConfig, fee_bps: Option<u16> },
    Deposit { vault_id: u64, amount: Coin },
    Withdraw { vault_id: u64, shares: String },
    Harvest { vault_id: u64 },
    Rebalance { vault_id: u64, plan: AllocationPlan },
}

#[derive(Clone, Debug, PartialEq, Eq)]
pub enum QueryMsg {
    Config {},
    GetVault { id: u64 },
    UserPosition { vault_id: u64, address: String },
    ListVaults { start_after: Option<u64>, limit: Option<u32> },
}

#[derive(Clone, Debug, PartialEq, Eq)]
pub struct ConfigResp {
    pub admin: String,
    pub default_denom: String,
    pub max_fee_bps: u16,
}

pub struct ConfigRespView {
    pub admin: Seq<char>,
    pub default_denom: Seq<char>,
    pub max_fee_bps: u16,
}

impl View for ConfigResp {
    type V = ConfigRespView;

    open spec fn view(&self) -> ConfigRespView {
        ConfigRespView {
            admin: self.admin@,
            default_denom: self.default_denom@,
            max_fee_bps: self.max_fee_bps,
        }
    }
}

#[derive(Clone, Debug, PartialEq, Eq)]
pub struct VaultResp {
    pub id: u64,
    pub label: String,
    pub denom: String,
    pub strategy: StrategyConfig,
    pub fee_bps: u16,
    pub tvl: String,
    pub total_shares: String,
    pub created_at: u64,
    pub allocations: Vec<AllocationLegResp>,
}

pub struct VaultRespView {
    pub id: u64,
    pub label: Seq<char>,
    pub denom: Seq<char>,
    pub strategy: StrategyConfigView,
    pub fee_bps: u16,
    pub tvl: Seq<char>,
    pub total_shares: Seq<char>,
    pub created_at: u64,
    pub allocations: Seq<AllocationLegRespView>,
}

impl View for VaultResp {
    type V = VaultRespView;

    open spec fn view(&self) -> VaultRespView {
        VaultRespView {
            id: self.id,
            label: self.label@,
            denom: self.denom@,
            strategy: self.strategy.deep_view(),
            fee_bps: self.fee_bps,
            tvl: self.tvl@,
            total_shares: self.total_shares@,
            created_at: self.created_at,
            allocations: self.allocations.deep_view(),
        }
    }
}

impl DeepView for VaultResp {
    type V = VaultRespView;

    open spec fn deep_view(&self) -> VaultRespView {
        self@
    }
}

#[derive(Clone, Debug, PartialEq, Eq)]
pub struct UserPositionResp {
    pub vault_id: u64,
    pub address: String,
    pub shares: String,
    pub value: String,
    pub deposited_at: u64,
}

pub struct UserPositionRespView {
    pub vault_id: u64,
    pub address: Seq<char>,
    pub shares: Seq<char>,
    pub value: Seq<char>,
    pub deposited_at: u64,
}

impl View for UserPositionResp {
    type V = UserPositionRespView;

    open spec fn view(&self) -> UserPositionRespView {
        UserPositionRespView {
            vault_id: self.vault_id,
            address: self.address@,
            shares: self.shares@,
            value: self.value@,
            deposited_at: self.deposited_at,
        }
    }
}

/// A capital-allocation strategy: a built-in preset or explicit legs.
#[derive(Clone, Debug, PartialEq, Eq)]
pub enum StrategyConfig {
    Conservative,
    Balanced,
    Aggressive,
    Custom { allocations: AllocationPlan },
}

pub enum StrategyConfigView {
    Conservative,
    Balanced,
    Aggressive,
    Custom { allocations: AllocationPlanView },
}

impl DeepView for StrategyConfig {
    type V = StrategyConfigView;

    open spec fn deep_view(&self) -> StrategyConfigView {
        match self {
            StrategyConfig::Conservative => StrategyConfigView::Conservative,
            StrategyConfig::Balanced => StrategyConfigView::Balanced,
            StrategyConfig::Aggressive => StrategyConfigView::Aggressive,
            StrategyConfig::Custom { allocations } => StrategyConfigView::Custom {
                allocations: allocations.deep_view(),
            },
        }
    }
}

/// The whole allocation of a vault, one leg per protocol.
#[derive(Clone, Debug, PartialEq, Eq)]
pub struct AllocationPlan {
    pub legs: Vec<AllocationLeg>,
}

pub struct AllocationPlanView {
    pub legs: Seq<AllocationLegView>,
}

impl DeepView for AllocationPlan {
    type V = AllocationPlanView;

    open spec fn deep_view(&self) -> AllocationPlanView {
        AllocationPlanView { legs: self.legs.deep_view() }
    }
}

/// One allocation leg: a protocol, a weight in basis points, and the
/// amount targeted for it (a decimal string).
#[derive(Clone, Debug, PartialEq, Eq)]
pub struct AllocationLeg {
    pub protocol: ProtocolType,
    pub weight_bps: u16,
    pub target_amount: String,
}

pub struct AllocationLegView {
    pub protocol: ProtocolType,
    pub weight_bps: u16,
    pub target_amount: Seq<char>,
}

impl DeepView for AllocationLeg {
    type V = AllocationLegView;

    open spec fn deep_view(&self) -> AllocationLegView {
        AllocationLegView {
            protocol: self.protocol,
            weight_bps: self.weight_bps,
            target_amount: self.target_amount@,
        }
    }
}

#[derive(Clone, Debug, PartialEq, Eq)]
pub struct AllocationLegResp {
    pub protocol: ProtocolType,
    pub weight_bps: u16,
    pub current_amount: String,
    pub target_amount: String,
}

pub struct AllocationLegRespView {
    pub protocol: ProtocolType,
    pub weight_bps: u16,
    pub current_amount: Seq<char>,
    pub target_amount: Seq<char>,
}

impl DeepView for AllocationLegResp {
    type V = AllocationLegRespView;

    open spec fn deep_view(&self) -> AllocationLegRespView {
        AllocationLegRespView {
            protocol: self.protocol,
            weight_bps: self.weight_bps,
            current_amount: self.current_amount@,
            target_amount: self.target_amount@,
        }
    }
}

/// The kind of protocol an allocation leg points at.
#[derive(Clone, Copy, Debug, PartialEq, Eq, Structural)]
pub enum ProtocolType {
    Staking,
    Lending,
    LiquidityPool,
    PerpsHedge,
    Cash,
}

impl AllocationLeg {
    /// A copy with the same view.
    pub fn duplicate(&self) -> (r: AllocationLeg)
        ensures
            r.deep_view() == self.deep_view(),
    {
        AllocationLeg {
            protocol: self.protocol,
            weight_bps: self.weight_bps,
            target_amount: self.target_amount.clone(),
        }
    }
}

impl AllocationPlan {
    /// A copy with the same view.
    pub fn duplicate(&self) -> (r: AllocationPlan)
        ensures
            r.deep_view() == self.deep_view(),
    {
        let mut legs: Vec<AllocationLeg> = Vec::new();
        let mut i: usize = 0;
        while i < self.legs.len()
            invariant
                0 <= i <= self.legs@.len(),
                legs@.len() == i,
                forall|k: int|
                    0 <= k < i ==> (#[trigger] legs@[k]).deep_view() == self.legs@[k].deep_view(),
            decreases self.legs@.len() - i,
        {
            legs.push(self.legs[i].duplicate());
            i = i + 1;
        }
        proof {
            assert forall|k: int| 0 <= k < self.legs@.len() implies legs.deep_view()[k]
                == self.legs.deep_view()[k] by {
                assert(legs.deep_view()[k] == legs@[k].deep_view());
                assert(self.legs.deep_view()[k] == self.legs@[k].deep_view());
            }
            assert(legs.deep_view() =~= self.legs.deep_view());
        }
        AllocationPlan { legs }
    }
}

impl StrategyConfig {
    /// A copy with the same view.
    pub fn duplicate(&self) -> (r: StrategyConfig)
        ensures
            r.deep_view() == self.deep_view(),
    {
        match self {
            StrategyConfig::Conservative => StrategyConfig::Conservative,
            StrategyConfig::Balanced => StrategyConfig::Balanced,
            StrategyConfig::Aggressive => StrategyConfig::Aggressive,
            StrategyConfig::Custom { allocations } => StrategyConfig::Custom {
                allocations: allocations.duplicate(),
            },
        }
    }
}

/// The typed answer of one query dispatch.
#[derive(Clone, Debug, PartialEq, Eq)]
pub enum QueryAnswer {
    Config(ConfigResp),
    Vault(VaultResp),
    Position(UserPositionResp),
    Vaults(Vec<VaultResp>),
}

} // verus!
