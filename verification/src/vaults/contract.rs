//! The vault accounting engine itself: command handlers, queries, the
//! engine invariant, and the laws proved about it.
//!
//! The engine owns the whole persisted state of the component. Its
//! invariant [`VaultsEngine::wf`] carries the core reconciliation law:
//! for every vault, the share rows of that vault sum exactly to the
//! vault's `total_shares`, and shares exist exactly while value is
//! locked (`total_shares == 0 <==> tvl == 0`).

use vstd::prelude::*;

use crate::host::BankSend;
use crate::host::BankSendView;
use crate::host::Coin;
use crate::host::CoinView;
use crate::host::Env;
use crate::host::MessageInfo;
use crate::host::Response;
use crate::host::ResponseView;
use crate::strings::all_digits;
use crate::strings::dec_val;
use crate::strings::parse_u128;
use crate::strings::str_eq;
use crate::strings::u64_to_dec;
use crate::vaults::error::ContractError;
use crate::vaults::events::evt_create_vault;
use crate::vaults::events::evt_deposit_vault;
use crate::vaults::events::evt_harvest_vault;
use crate::vaults::events::evt_rebalance_vault;
use crate::vaults::events::evt_withdraw_vault;
use crate::vaults::events::spec_evt_create_vault;
use crate::vaults::events::spec_evt_deposit_vault;
use crate::vaults::events::spec_evt_harvest_vault;
use crate::vaults::events::spec_evt_rebalance_vault;
use crate::vaults::events::spec_evt_withdraw_vault;
use crate::strings::dec_of;
use crate::strings::u128_to_dec;
use crate::vaults::msg::AllocationLeg;
use crate::vaults::msg::AllocationLegRespView;
use crate::vaults::msg::AllocationLegResp;
use crate::vaults::msg::AllocationPlan;
use crate::vaults::msg::ConfigResp;
use crate::vaults::msg::ExecuteMsg;
use crate::vaults::msg::InstantiateMsg;
use crate::vaults::msg::QueryAnswer;
use crate::vaults::msg::QueryMsg;
use crate::vaults::msg::StrategyConfig;
use crate::vaults::msg::UserPositionResp;
use crate::vaults::msg::UserPositionRespView;
use crate::vaults::msg::VaultResp;
use crate::vaults::msg::VaultRespView;
use crate::vaults::state::Config;
use crate::vaults::state::ShareEntry;
use crate::vaults::state::UserPosition;
use crate::vaults::state::Vault;

verus! {

/// The whole persisted state of the vault component.
pub struct VaultsEngine {
    pub config: Config,
    pub next_vault_id: u64,
    pub vaults: Vec<Vault>,
    pub positions: Vec<UserPosition>,
    pub shares: Vec<ShareEntry>,
}

// ---------------------------------------------------------------------
// The share ledger as a mathematical object.
// ---------------------------------------------------------------------
/// What one row contributes to a vault's share total.
pub open spec fn row_share(e: ShareEntry, vid: u64) -> int {
    if e.vault_id == vid {
        e.shares as int
    } else {
        0
    }
}

/// The sum of all share rows of one vault.
pub open spec fn sum_for(entries: Seq<ShareEntry>, vid: u64) -> int
    decreases entries.len(),
{
    if entries.len() == 0 {
        0
    } else {
        sum_for(entries.drop_last(), vid) + row_share(entries.last(), vid)
    }
}

/// What one row contributes to one account's holding in one vault.
pub open spec fn key_share(e: ShareEntry, vid: u64, addr: Seq<char>) -> int {
    if e.vault_id == vid && e.address@ == addr {
        e.shares as int
    } else {
        0
    }
}

/// The shares one account owns in one vault, read off the share ledger.
pub open spec fn owned_for(entries: Seq<ShareEntry>, vid: u64, addr: Seq<char>) -> int
    decreases entries.len(),
{
    if entries.len() == 0 {
        0
    } else {
        owned_for(entries.drop_last(), vid, addr) + key_share(entries.last(), vid, addr)
    }
}

proof fn lemma_sum_update(entries: Seq<ShareEntry>, i: int, e: ShareEntry, vid: u64)
    requires
        0 <= i < entries.len(),
    ensures
        sum_for(entries.update(i, e), vid) == sum_for(entries, vid) - row_share(entries[i], vid)
            + row_share(e, vid),
    decreases entries.len(),
{
    let upd = entries.update(i, e);
    if i == entries.len() - 1 {
        assert(upd.drop_last() =~= entries.drop_last());
    } else {
        assert(upd.drop_last() =~= entries.drop_last().update(i, e));
        lemma_sum_update(entries.drop_last(), i, e, vid);
    }
}

proof fn lemma_owned_update(entries: Seq<ShareEntry>, i: int, e: ShareEntry, vid: u64, addr: Seq<
    char,
>)
    requires
        0 <= i < entries.len(),
    ensures
        owned_for(entries.update(i, e), vid, addr) == owned_for(entries, vid, addr) - key_share(
            entries[i],
            vid,
            addr,
        ) + key_share(e, vid, addr),
    decreases entries.len(),
{
    let upd = entries.update(i, e);
    if i == entries.len() - 1 {
        assert(upd.drop_last() =~= entries.drop_last());
    } else {
        assert(upd.drop_last() =~= entries.drop_last().update(i, e));
        lemma_owned_update(entries.drop_last(), i, e, vid, addr);
    }
}

proof fn lemma_sum_push(entries: Seq<ShareEntry>, e: ShareEntry, vid: u64)
    ensures
        sum_for(entries.push(e), vid) == sum_for(entries, vid) + row_share(e, vid),
{
    assert(entries.push(e).drop_last() =~= entries);
}

proof fn lemma_owned_push(entries: Seq<ShareEntry>, e: ShareEntry, vid: u64, addr: Seq<char>)
    ensures
        owned_for(entries.push(e), vid, addr) == owned_for(entries, vid, addr) + key_share(
            e,
            vid,
            addr,
        ),
{
    assert(entries.push(e).drop_last() =~= entries);
}

proof fn lemma_sum_remove(entries: Seq<ShareEntry>, i: int, vid: u64)
    requires
        0 <= i < entries.len(),
    ensures
        sum_for(entries.remove(i), vid) == sum_for(entries, vid) - row_share(entries[i], vid),
    decreases entries.len(),
{
    let rem = entries.remove(i);
    if i == entries.len() - 1 {
        assert(rem =~= entries.drop_last());
    } else {
        assert(rem.drop_last() =~= entries.drop_last().remove(i));
        assert(rem.last() == entries.last());
        lemma_sum_remove(entries.drop_last(), i, vid);
    }
}

proof fn lemma_owned_remove(entries: Seq<ShareEntry>, i: int, vid: u64, addr: Seq<char>)
    requires
        0 <= i < entries.len(),
    ensures
        owned_for(entries.remove(i), vid, addr) == owned_for(entries, vid, addr) - key_share(
            entries[i],
            vid,
            addr,
        ),
    decreases entries.len(),
{
    let rem = entries.remove(i);
    if i == entries.len() - 1 {
        assert(rem =~= entries.drop_last());
    } else {
        assert(rem.drop_last() =~= entries.drop_last().remove(i));
        assert(rem.last() == entries.last());
        lemma_owned_remove(entries.drop_last(), i, vid, addr);
    }
}

/// A vault no row points at has a zero share total.
proof fn lemma_sum_absent(entries: Seq<ShareEntry>, vid: u64)
    requires
        forall|i: int| 0 <= i < entries.len() ==> (#[trigger] entries[i]).vault_id != vid,
    ensures
        sum_for(entries, vid) == 0,
    decreases entries.len(),
{
    if entries.len() > 0 {
        lemma_sum_absent(entries.drop_last(), vid);
    }
}

/// An account no row is keyed by owns nothing.
proof fn lemma_owned_absent(entries: Seq<ShareEntry>, vid: u64, addr: Seq<char>)
    requires
        forall|i: int|
            0 <= i < entries.len() ==> !((#[trigger] entries[i]).vault_id == vid
                && entries[i].address@ == addr),
    ensures
        owned_for(entries, vid, addr) == 0,
    decreases entries.len(),
{
    if entries.len() > 0 {
        lemma_owned_absent(entries.drop_last(), vid, addr);
    }
}

/// No account owns more than its vault's share total.
proof fn lemma_owned_le_sum(entries: Seq<ShareEntry>, vid: u64, addr: Seq<char>)
    ensures
        0 <= owned_for(entries, vid, addr) <= sum_for(entries, vid),
    decreases entries.len(),
{
    if entries.len() > 0 {
        lemma_owned_le_sum(entries.drop_last(), vid, addr);
    }
}

/// With unique keys, the row of an account is exactly its holding.
proof fn lemma_owned_entry(entries: Seq<ShareEntry>, i: int)
    requires
        share_keys_unique(entries),
        0 <= i < entries.len(),
    ensures
        owned_for(entries, entries[i].vault_id, entries[i].address@) == entries[i].shares as int,
    decreases entries.len(),
{
    let vid = entries[i].vault_id;
    let addr = entries[i].address@;
    if i == entries.len() - 1 {
        assert(forall|j: int|
            0 <= j < entries.drop_last().len() ==> !((#[trigger] entries.drop_last()[j]).vault_id
                == vid && entries.drop_last()[j].address@ == addr));
        lemma_owned_absent(entries.drop_last(), vid, addr);
    } else {
        assert(share_keys_unique(entries.drop_last()));
        lemma_owned_entry(entries.drop_last(), i);
        assert(key_share(entries.last(), vid, addr) == 0);
    }
}

// ---------------------------------------------------------------------
// The engine invariant.
// ---------------------------------------------------------------------
pub open spec fn vaults_sorted(vaults: Seq<Vault>) -> bool {
    forall|i: int, j: int|
        0 <= i < j < vaults.len() ==> #[trigger] vaults[i].id < #[trigger] vaults[j].id
}

pub open spec fn vault_ids_below(vaults: Seq<Vault>, next: u64) -> bool {
    forall|i: int| 0 <= i < vaults.len() ==> (#[trigger] vaults[i]).id < next
}

pub open spec fn share_ids_below(entries: Seq<ShareEntry>, next: u64) -> bool {
    forall|i: int| 0 <= i < entries.len() ==> (#[trigger] entries[i]).vault_id < next
}

pub open spec fn share_keys_unique(entries: Seq<ShareEntry>) -> bool {
    forall|i: int, j: int|
        0 <= i < j < entries.len() ==> !((#[trigger] entries[i]).vault_id
            == (#[trigger] entries[j]).vault_id && entries[i].address@ == entries[j].address@)
}

pub open spec fn position_keys_unique(ps: Seq<UserPosition>) -> bool {
    forall|i: int, j: int|
        0 <= i < j < ps.len() ==> !((#[trigger] ps[i]).vault_id == (#[trigger] ps[j]).vault_id
            && ps[i].address@ == ps[j].address@)
}

/// Conservation: every vault's share rows sum to its `total_shares`.
pub open spec fn conservation(vaults: Seq<Vault>, entries: Seq<ShareEntry>) -> bool {
    forall|k: int|
        0 <= k < vaults.len() ==> sum_for(entries, (#[trigger] vaults[k]).id)
            == vaults[k].total_shares as int
}

/// Shares exist exactly while value is locked.
pub open spec fn shares_iff_value(vaults: Seq<Vault>) -> bool {
    forall|k: int|
        0 <= k < vaults.len() ==> ((#[trigger] vaults[k]).total_shares == 0 <==> vaults[k].tvl
            == 0)
}

impl VaultsEngine {
    /// The engine invariant: established at instantiation and preserved
    /// by every command.
    pub open spec fn wf(self) -> bool {
        &&& vaults_sorted(self.vaults@)
        &&& vault_ids_below(self.vaults@, self.next_vault_id)
        &&& share_ids_below(self.shares@, self.next_vault_id)
        &&& share_keys_unique(self.shares@)
        &&& position_keys_unique(self.positions@)
        &&& conservation(self.vaults@, self.shares@)
        &&& shares_iff_value(self.vaults@)
    }

    pub open spec fn has_vault(self, id: u64) -> bool {
        exists|i: int| 0 <= i < self.vaults@.len() && (#[trigger] self.vaults@[i]).id == id
    }

    pub open spec fn vault_at(self, id: u64) -> Vault {
        self.vaults@[vault_idx(self.vaults@, id)]
    }

    /// The shares an account owns in a vault.
    pub open spec fn user_shares(self, vid: u64, addr: Seq<char>) -> int {
        owned_for(self.shares@, vid, addr)
    }
}

pub open spec fn vault_idx(vaults: Seq<Vault>, id: u64) -> int {
    choose|i: int| 0 <= i < vaults.len() && (#[trigger] vaults[i]).id == id
}

/// In a sorted vault list, an id picks out exactly one index.
proof fn lemma_vault_idx(vaults: Seq<Vault>, i: int)
    requires
        vaults_sorted(vaults),
        0 <= i < vaults.len(),
    ensures
        vault_idx(vaults, vaults[i].id) == i,
{
    let id = vaults[i].id;
    assert(0 <= i < vaults.len() && vaults[i].id == id);
    let j = vault_idx(vaults, id);
    assert(0 <= j < vaults.len() && vaults[j].id == id);
    if j < i {
        assert(vaults[j].id < vaults[i].id);
    } else if i < j {
        assert(vaults[i].id < vaults[j].id);
    }
}

/// Linear lookup of a vault by id.
fn find_vault(vaults: &Vec<Vault>, id: u64) -> (r: Option<usize>)
    ensures
        match r {
            Some(i) => 0 <= i < vaults@.len() && vaults@[i as int].id == id,
            None => forall|i: int| 0 <= i < vaults@.len() ==> (#[trigger] vaults@[i]).id != id,
        },
{
    let mut i: usize = 0;
    while i < vaults.len()
        invariant
            0 <= i <= vaults@.len(),
            forall|j: int| 0 <= j < i ==> (#[trigger] vaults@[j]).id != id,
        decreases vaults@.len() - i,
    {
        if vaults[i].id == id {
            return Some(i);
        }
        i = i + 1;
    }
    None
}

/// Linear lookup of a share row by vault and account.
fn find_share(entries: &Vec<ShareEntry>, vid: u64, addr: &str) -> (r: Option<usize>)
    ensures
        match r {
            Some(i) => 0 <= i < entries@.len() && entries@[i as int].vault_id == vid
                && entries@[i as int].address@ == addr@,
            None => forall|i: int|
                0 <= i < entries@.len() ==> !((#[trigger] entries@[i]).vault_id == vid
                    && entries@[i].address@ == addr@),
        },
{
    let mut i: usize = 0;
    while i < entries.len()
        invariant
            0 <= i <= entries@.len(),
            forall|j: int|
                0 <= j < i ==> !((#[trigger] entries@[j]).vault_id == vid && entries@[j].address@
                    == addr@),
        decreases entries@.len() - i,
    {
        if entries[i].vault_id == vid && str_eq(entries[i].address.as_str(), addr) {
            return Some(i);
        }
        i = i + 1;
    }
    None
}

/// Linear lookup of a position record by vault and account.
fn find_position(ps: &Vec<UserPosition>, vid: u64, addr: &str) -> (r: Option<usize>)
    ensures
        match r {
            Some(i) => 0 <= i < ps@.len() && ps@[i as int].vault_id == vid
                && ps@[i as int].address@ == addr@,
            None => forall|i: int|
                0 <= i < ps@.len() ==> !((#[trigger] ps@[i]).vault_id == vid && ps@[i].address@
                    == addr@),
        },
{
    let mut i: usize = 0;
    while i < ps.len()
        invariant
            0 <= i <= ps@.len(),
            forall|j: int|
                0 <= j < i ==> !((#[trigger] ps@[j]).vault_id == vid && ps@[j].address@ == addr@),
        decreases ps@.len() - i,
    {
        if ps[i].vault_id == vid && str_eq(ps[i].address.as_str(), addr) {
            return Some(i);
        }
        i = i + 1;
    }
    None
}

// ---------------------------------------------------------------------
// Strategy validation.
// ---------------------------------------------------------------------
pub open spec fn legs_weight_sum(legs: Seq<AllocationLeg>) -> int
    decreases legs.len(),
{
    if legs.len() == 0 {
        0
    } else {
        legs_weight_sum(legs.drop_last()) + legs.last().weight_bps
    }
}

proof fn lemma_legs_weight_prefix(legs: Seq<AllocationLeg>, i: int)
    requires
        0 <= i <= legs.len(),
    ensures
        legs_weight_sum(legs.subrange(0, i)) <= legs_weight_sum(legs),
    decreases legs.len() - i,
{
    if i == legs.len() {
        assert(legs.subrange(0, i) =~= legs);
    } else {
        lemma_legs_weight_prefix(legs, i + 1);
        assert(legs.subrange(0, i + 1).drop_last() =~= legs.subrange(0, i));
    }
}

/// Whether a strategy is acceptable: presets always, explicit legs when
/// their weights sum to at most 10000 basis points.
pub open spec fn strategy_ok(strategy: StrategyConfig) -> bool {
    match strategy {
        StrategyConfig::Custom { allocations } => legs_weight_sum(allocations.legs@) <= 10000,
        _ => true,
    }
}

/// Accepts an allocation plan exactly when its weights sum to at most
/// 10000 basis points.
pub fn validate_allocation_plan(plan: &AllocationPlan) -> (r: Result<(), ContractError>)
    ensures
        r is Ok <==> legs_weight_sum(plan.legs@) <= 10000,
        r is Err ==> r == Err::<(), ContractError>(ContractError::AllocationExceeds100),
{
    let n = plan.legs.len();
    let mut total: u32 = 0;
    let mut i: usize = 0;
    while i < n
        invariant
            0 <= i <= n == plan.legs@.len(),
            total == legs_weight_sum(plan.legs@.subrange(0, i as int)),
            total <= 10000,
        decreases n - i,
    {
        proof {
            assert(plan.legs@.subrange(0, i + 1).drop_last() =~= plan.legs@.subrange(0, i as int));
        }
        total = total + plan.legs[i].weight_bps as u32;
        i = i + 1;
        if total > 10000 {
            proof {
                lemma_legs_weight_prefix(plan.legs@, i as int);
            }
            return Err(ContractError::AllocationExceeds100);
        }
    }
    proof {
        assert(plan.legs@.subrange(0, n as int) =~= plan.legs@);
    }
    Ok(())
}

/// Accepts the built-in presets outright and a custom strategy whose
/// legs pass [`validate_allocation_plan`].
pub fn validate_strategy(strategy: &StrategyConfig) -> (r: Result<(), ContractError>)
    ensures
        r is Ok <==> strategy_ok(*strategy),
        r is Err ==> r == Err::<(), ContractError>(ContractError::AllocationExceeds100),
{
    match strategy {
        StrategyConfig::Conservative | StrategyConfig::Balanced | StrategyConfig::Aggressive => Ok(
            (),
        ),
        StrategyConfig::Custom { allocations } => validate_allocation_plan(allocations),
    }
}

/// The label a strategy carries in the creation event.
pub open spec fn strategy_label(strategy: StrategyConfig) -> Seq<char> {
    match strategy {
        StrategyConfig::Conservative => "Conservative"@,
        StrategyConfig::Balanced => "Balanced"@,
        StrategyConfig::Aggressive => "Aggressive"@,
        StrategyConfig::Custom { .. } => "Custom"@,
    }
}

// ---------------------------------------------------------------------
// Instantiation and vault creation.
// ---------------------------------------------------------------------
impl VaultsEngine {
    /// Sets up an empty engine: the administrator (the sender unless
    /// named), the accepted denomination, and the fee ceiling
    /// (500 basis points unless named).
    pub fn instantiate(info: &MessageInfo, msg: InstantiateMsg) -> (r: (VaultsEngine, Response))
        ensures
            r.0.wf(),
            r.0.config.admin@ == match msg.admin {
                Some(a) => a@,
                None => info.sender@,
            },
            r.0.config.default_denom@ == msg.default_denom@,
            r.0.config.max_fee_bps == msg.max_fee_bps.unwrap_or(500),
            r.0.next_vault_id == 1,
            r.0.vaults@.len() == 0,
            r.0.positions@.len() == 0,
            r.0.shares@.len() == 0,
            r.1@.messages.len() == 0,
            r.1@.events.len() == 0,
            r.1@.attributes == seq![("action"@, "instantiate"@)],
    {
        let admin = match msg.admin {
            Some(a) => a,
            None => info.sender.clone(),
        };
        let max_fee_bps = match msg.max_fee_bps {
            Some(f) => f,
            None => 500,
        };
        let engine = VaultsEngine {
            config: Config { admin, default_denom: msg.default_denom, max_fee_bps },
            next_vault_id: 1,
            vaults: Vec::new(),
            positions: Vec::new(),
            shares: Vec::new(),
        };
        let resp = Response::new().add_attribute("action", "instantiate");
        (engine, resp)
    }
}

/// Which failure, if any, vault creation meets, in the order the checks
/// run.
pub open spec fn create_vault_check(
    pre: VaultsEngine,
    sender: Seq<char>,
    strategy: StrategyConfig,
    fee_bps: Option<u16>,
) -> Option<ContractError> {
    if sender != pre.config.admin@ {
        Some(ContractError::Unauthorized)
    } else if fee_bps.unwrap_or(100) > pre.config.max_fee_bps {
        Some(ContractError::InvalidFee)
    } else if !strategy_ok(strategy) {
        Some(ContractError::AllocationExceeds100)
    } else {
        None
    }
}

/// Everything vault creation does, as a relation between the engine
/// before and after.
pub open spec fn create_vault_rel(
    pre: VaultsEngine,
    post: VaultsEngine,
    now: u64,
    sender: Seq<char>,
    label: String,
    denom: String,
    strategy: StrategyConfig,
    fee_bps: Option<u16>,
    r: Result<ResponseView, ContractError>,
) -> bool {
    &&& post.config == pre.config
    &&& match create_vault_check(pre, sender, strategy, fee_bps) {
        Some(e) => r == Err::<ResponseView, ContractError>(e) && post == pre,
        None => {
            &&& post.next_vault_id == pre.next_vault_id + 1
            &&& post.vaults@.len() == pre.vaults@.len() + 1
            &&& post.vaults@.subrange(0, pre.vaults@.len() as int) == pre.vaults@
            &&& ({
                let v = post.vaults@.last();
                &&& v.id == pre.next_vault_id
                &&& v.label == label
                &&& v.denom == denom
                &&& v.strategy == strategy
                &&& v.fee_bps == fee_bps.unwrap_or(100)
                &&& v.tvl == 0
                &&& v.total_shares == 0
                &&& v.created_at == now
                &&& v.allocations@.len() == 0
            })
            &&& post.positions@ == pre.positions@
            &&& post.shares@ == pre.shares@
            &&& r is Ok
            &&& r->Ok_0.messages.len() == 0
            &&& r->Ok_0.events == seq![
                spec_evt_create_vault(pre.next_vault_id, label@, denom@, strategy_label(strategy)),
            ]
            &&& r->Ok_0.attributes == seq![("action"@, "create_vault"@)]
        },
    }
}

impl VaultsEngine {
    /// Creates an empty vault under the next id. Only the administrator
    /// may create vaults; the fee defaults to 100 basis points and must
    /// not exceed the configured ceiling; a custom strategy must not
    /// allocate more than the whole.
    pub fn exec_create_vault(
        &mut self,
        env: &Env,
        info: &MessageInfo,
        label: String,
        denom: String,
        strategy: StrategyConfig,
        fee_bps: Option<u16>,
    ) -> (r: Result<Response, ContractError>)
        requires
            old(self).wf(),
            old(self).next_vault_id < u64::MAX,
        ensures
            final(self).wf(),
            create_vault_rel(
                *old(self),
                *final(self),
                env.block_time.spec_seconds(),
                info.sender@,
                label,
                denom,
                strategy,
                fee_bps,
                result_view(r),
            ),
    {
        if !str_eq(info.sender.as_str(), self.config.admin.as_str()) {
            return Err(ContractError::Unauthorized);
        }
        let fee = match fee_bps {
            Some(f) => f,
            None => 100,
        };
        if fee > self.config.max_fee_bps {
            return Err(ContractError::InvalidFee);
        }
        if let Err(e) = validate_strategy(&strategy) {
            return Err(e);
        }
        let id = self.next_vault_id;
        let strategy_str = match &strategy {
            StrategyConfig::Conservative => "Conservative",
            StrategyConfig::Balanced => "Balanced",
            StrategyConfig::Aggressive => "Aggressive",
            StrategyConfig::Custom { .. } => "Custom",
        };
        let event = evt_create_vault(id, label.as_str(), denom.as_str(), strategy_str);
        let vault = Vault {
            id,
            label,
            denom,
            strategy,
            fee_bps: fee,
            tvl: 0,
            total_shares: 0,
            created_at: env.block_time.seconds(),
            allocations: Vec::new(),
        };
        self.vaults.push(vault);
        self.next_vault_id = id + 1;
        proof {
            assert forall|k: int| 0 <= k < self.vaults@.len() implies sum_for(
                self.shares@,
                (#[trigger] self.vaults@[k]).id,
            ) == self.vaults@[k].total_shares as int by {
                if k < self.vaults@.len() - 1 {
                    assert(self.vaults@[k] == old(self).vaults@[k]);
                } else {
                    assert(forall|i: int|
                        0 <= i < self.shares@.len() ==> (#[trigger] self.shares@[i]).vault_id
                            != id);
                    lemma_sum_absent(self.shares@, id);
                }
            }
        }
        let resp = Response::new().add_event(event).add_attribute("action", "create_vault");
        proof {
            assert(resp@.events =~= seq![event@]);
            assert(resp@.attributes =~= seq![("action"@, "create_vault"@)]);
            assert(self.vaults@.subrange(0, old(self).vaults@.len() as int) =~= old(self).vaults@);
        }
        Ok(resp)
    }
}

// ---------------------------------------------------------------------
// Deposit.
// ---------------------------------------------------------------------
/// The view of an execution result: the response abstracted, the error
/// kept.
pub open spec fn result_view(r: Result<Response, ContractError>) -> Result<
    ResponseView,
    ContractError,
> {
    match r {
        Ok(resp) => Ok(resp@),
        Err(e) => Err(e),
    }
}

/// Shares minted for a deposit: the amount itself into an empty vault
/// (the first depositor sets the price one to one), else proportional,
/// truncated toward zero in the vault's favour.
pub open spec fn spec_minted(v: Vault, amount: u128) -> int {
    if v.total_shares == 0 {
        amount as int
    } else {
        amount * v.total_shares / (v.tvl as int)
    }
}

/// Whether the deposit arithmetic stays within the magnitude range.
pub open spec fn deposit_fits(v: Vault, amount: u128) -> bool {
    &&& (v.total_shares != 0 ==> amount * v.total_shares <= u128::MAX)
    &&& v.tvl + amount <= u128::MAX
    &&& v.total_shares + spec_minted(v, amount) <= u128::MAX
}

/// Which failure, if any, a deposit meets, in the order the checks run.
/// An arithmetic overflow fails the command rather than wrap.
pub open spec fn deposit_check(pre: VaultsEngine, vault_id: u64, amount: Coin) -> Option<
    ContractError,
> {
    if !pre.has_vault(vault_id) {
        Some(ContractError::VaultNotFound)
    } else {
        let v = pre.vault_at(vault_id);
        if amount.denom@ != v.denom@ {
            Some(ContractError::InvalidDenom)
        } else if amount.amount == 0 {
            Some(ContractError::InvalidAmount)
        } else if !deposit_fits(v, amount.amount) {
            Some(ContractError::InvalidAmount)
        } else {
            None
        }
    }
}

pub open spec fn has_share_row(entries: Seq<ShareEntry>, vid: u64, addr: Seq<char>) -> bool {
    exists|i: int|
        0 <= i < entries.len() && (#[trigger] entries[i]).vault_id == vid && entries[i].address@
            == addr
}

pub open spec fn share_row_idx(entries: Seq<ShareEntry>, vid: u64, addr: Seq<char>) -> int {
    choose|i: int|
        0 <= i < entries.len() && (#[trigger] entries[i]).vault_id == vid && entries[i].address@
            == addr
}

/// The account's share row grows by `minted`: in place when a row
/// exists, else as a new row at the end.
pub open spec fn shares_credited(
    pre: Seq<ShareEntry>,
    post: Seq<ShareEntry>,
    vid: u64,
    addr: Seq<char>,
    minted: u128,
) -> bool {
    if has_share_row(pre, vid, addr) {
        let i = share_row_idx(pre, vid, addr);
        post == pre.update(i, ShareEntry { shares: (pre[i].shares + minted) as u128, ..pre[i] })
    } else {
        &&& post.len() == pre.len() + 1
        &&& post.subrange(0, pre.len() as int) == pre
        &&& post.last().vault_id == vid
        &&& post.last().address@ == addr
        &&& post.last().shares == minted
    }
}

pub open spec fn has_position(ps: Seq<UserPosition>, vid: u64, addr: Seq<char>) -> bool {
    exists|i: int|
        0 <= i < ps.len() && (#[trigger] ps[i]).vault_id == vid && ps[i].address@ == addr
}

pub open spec fn position_idx(ps: Seq<UserPosition>, vid: u64, addr: Seq<char>) -> int {
    choose|i: int|
        0 <= i < ps.len() && (#[trigger] ps[i]).vault_id == vid && ps[i].address@ == addr
}

/// The position record is overwritten with the shares of this deposit
/// and its time, or created when absent.
pub open spec fn position_recorded(
    pre: Seq<UserPosition>,
    post: Seq<UserPosition>,
    vid: u64,
    addr: Seq<char>,
    minted: u128,
    now: u64,
) -> bool {
    if has_position(pre, vid, addr) {
        let i = position_idx(pre, vid, addr);
        post == pre.update(i, UserPosition { shares: minted, deposited_at: now, ..pre[i] })
    } else {
        &&& post.len() == pre.len() + 1
        &&& post.subrange(0, pre.len() as int) == pre
        &&& post.last().vault_id == vid
        &&& post.last().address@ == addr
        &&& post.last().shares == minted
        &&& post.last().deposited_at == now
    }
}

/// Everything a deposit does, as a relation between the engine before
/// and after: which error comes on which input, and on success the
/// minted shares, the vault update, the share row, the position record,
/// and the response.
pub open spec fn deposit_rel(
    pre: VaultsEngine,
    post: VaultsEngine,
    now: u64,
    sender: Seq<char>,
    vault_id: u64,
    amount: Coin,
    r: Result<ResponseView, ContractError>,
) -> bool {
    &&& post.config == pre.config
    &&& post.next_vault_id == pre.next_vault_id
    &&& match deposit_check(pre, vault_id, amount) {
        Some(e) => r == Err::<ResponseView, ContractError>(e) && post == pre,
        None => {
            let v = pre.vault_at(vault_id);
            let idx = vault_idx(pre.vaults@, vault_id);
            let minted = spec_minted(v, amount.amount) as u128;
            &&& post.vaults@ == pre.vaults@.update(
                idx,
                Vault {
                    tvl: (v.tvl + amount.amount) as u128,
                    total_shares: (v.total_shares + minted) as u128,
                    ..v
                },
            )
            &&& shares_credited(pre.shares@, post.shares@, vault_id, sender, minted)
            &&& position_recorded(pre.positions@, post.positions@, vault_id, sender, minted, now)
            &&& post.user_shares(vault_id, sender) == pre.user_shares(vault_id, sender) + minted
            &&& r == Ok::<ResponseView, ContractError>(
                ResponseView {
                    messages: Seq::empty(),
                    attributes: seq![("action"@, "deposit_vault"@)],
                    events: seq![
                        spec_evt_deposit_vault(
                            vault_id,
                            sender,
                            amount.amount,
                            amount.denom@,
                            minted,
                        ),
                    ],
                },
            )
        },
    }
}

impl VaultsEngine {
    /// Deposits `amount` into a vault, minting shares at the current
    /// price (bootstrap one-to-one into an empty vault). Rejects an
    /// unknown vault, a wrong denomination, a zero amount, and any
    /// deposit whose arithmetic would overflow; a rejected deposit
    /// mutates nothing.
    pub fn exec_deposit(
        &mut self,
        env: &Env,
        info: &MessageInfo,
        vault_id: u64,
        amount: Coin,
    ) -> (r: Result<Response, ContractError>)
        requires
            old(self).wf(),
        ensures
            final(self).wf(),
            deposit_rel(
                *old(self),
                *final(self),
                env.block_time.spec_seconds(),
                info.sender@,
                vault_id,
                amount,
                result_view(r),
            ),
    {
        let idx = match find_vault(&self.vaults, vault_id) {
            Some(i) => i,
            None => {
                return Err(ContractError::VaultNotFound);
            },
        };
        proof {
            lemma_vault_idx(self.vaults@, idx as int);
        }
        if !str_eq(amount.denom.as_str(), self.vaults[idx].denom.as_str()) {
            return Err(ContractError::InvalidDenom);
        }
        if amount.amount == 0 {
            return Err(ContractError::InvalidAmount);
        }
        let ghost v = self.vaults@[idx as int];
        let v_total = self.vaults[idx].total_shares;
        let v_tvl = self.vaults[idx].tvl;
        let minted: u128 = if v_total == 0 {
            amount.amount
        } else {
            let prod = match amount.amount.checked_mul(v_total) {
                Some(p) => p,
                None => {
                    return Err(ContractError::InvalidAmount);
                },
            };
            assert(v_tvl != 0);
            prod / v_tvl
        };
        proof {
            if v.total_shares != 0 {
                vstd::arithmetic::div_mod::lemma_div_pos_is_pos(
                    amount.amount * v.total_shares,
                    v.tvl as int,
                );
            }
        }
        let new_tvl = match v_tvl.checked_add(amount.amount) {
            Some(x) => x,
            None => {
                return Err(ContractError::InvalidAmount);
            },
        };
        let new_total = match v_total.checked_add(minted) {
            Some(x) => x,
            None => {
                return Err(ContractError::InvalidAmount);
            },
        };
        let event = evt_deposit_vault(vault_id, info.sender.as_str(), &amount, &minted);

        let mut vault = self.vaults.remove(idx);
        vault.tvl = new_tvl;
        vault.total_shares = new_total;
        self.vaults.insert(idx, vault);
        proof {
            assert(self.vaults@ =~= old(self).vaults@.update(
                idx as int,
                Vault {
                    tvl: (v.tvl + amount.amount) as u128,
                    total_shares: (v.total_shares + minted) as u128,
                    ..v
                },
            ));
        }
        let ghost pre_shares = self.shares@;
        match find_share(&self.shares, vault_id, info.sender.as_str()) {
            Some(j) => {
                proof {
                    lemma_owned_entry(pre_shares, j as int);
                    lemma_owned_le_sum(pre_shares, vault_id, info.sender@);
                    assert(sum_for(pre_shares, vault_id) == v.total_shares as int);
                }
                let mut e = self.shares.remove(j);
                e.shares = e.shares + minted;
                self.shares.insert(j, e);
                proof {
                    let i = share_row_idx(pre_shares, vault_id, info.sender@);
                    assert(pre_shares[j as int].vault_id == vault_id && pre_shares[j as int].address@
                        == info.sender@);
                    assert(pre_shares[i].vault_id == vault_id && pre_shares[i].address@
                        == info.sender@);
                    assert(i == j) by {
                        if i != j {
                            assert(!share_keys_unique(pre_shares));
                        }
                    }
                    assert(self.shares@ =~= pre_shares.update(
                        i,
                        ShareEntry { shares: (pre_shares[i].shares + minted) as u128, ..pre_shares[i] },
                    ));
                }
            },
            None => {
                let entry = ShareEntry { vault_id, address: info.sender.clone(), shares: minted };
                let ghost e = entry;
                self.shares.push(entry);
                proof {
                    assert(self.shares@ == pre_shares.push(e));
                    assert(self.shares@.subrange(0, pre_shares.len() as int) =~= pre_shares);
                    assert(self.shares@.last() == e);
                }
            },
        }
        let ghost pre_positions = self.positions@;
        match find_position(&self.positions, vault_id, info.sender.as_str()) {
            Some(j) => {
                let mut p = self.positions.remove(j);
                p.shares = minted;
                p.deposited_at = env.block_time.seconds();
                self.positions.insert(j, p);
                proof {
                    let i = position_idx(pre_positions, vault_id, info.sender@);
                    assert(pre_positions[i].vault_id == vault_id && pre_positions[i].address@
                        == info.sender@);
                    assert(i == j) by {
                        if i != j {
                            assert(!position_keys_unique(pre_positions));
                        }
                    }
                    assert(self.positions@ =~= pre_positions.update(
                        i,
                        UserPosition {
                            shares: minted,
                            deposited_at: env.block_time.spec_seconds(),
                            ..pre_positions[i]
                        },
                    ));
                }
            },
            None => {
                let p = UserPosition {
                    vault_id,
                    address: info.sender.clone(),
                    shares: minted,
                    deposited_at: env.block_time.seconds(),
                };
                self.positions.push(p);
                proof {
                    assert(self.positions@.subrange(0, pre_positions.len() as int)
                        =~= pre_positions);
                }
            },
        }
        proof {
            let pre = *old(self);
            let a = info.sender@;
            // The account's holding rose by exactly the minted shares.
            if has_share_row(pre_shares, vault_id, a) {
                let i = share_row_idx(pre_shares, vault_id, a);
                lemma_owned_entry(pre_shares, i);
                lemma_owned_le_sum(pre_shares, vault_id, a);
                lemma_owned_update(
                    pre_shares,
                    i,
                    self.shares@[i],
                    vault_id,
                    a,
                );
            } else {
                lemma_owned_push(pre_shares, self.shares@.last(), vault_id, a);
                lemma_owned_absent(pre_shares, vault_id, a);
                assert(self.shares@ =~= pre_shares.push(self.shares@.last()));
            }
            // Ids and order of the vault list are untouched.
            assert forall|k: int| 0 <= k < self.vaults@.len() implies (#[trigger] self.vaults@[k]).id
                == pre.vaults@[k].id by {}
            // Conservation holds vault by vault.
            assert forall|k: int| 0 <= k < self.vaults@.len() implies sum_for(
                self.shares@,
                (#[trigger] self.vaults@[k]).id,
            ) == self.vaults@[k].total_shares as int by {
                let vk = pre.vaults@[k].id;
                if has_share_row(pre_shares, vault_id, a) {
                    let i = share_row_idx(pre_shares, vault_id, a);
                    lemma_sum_update(pre_shares, i, self.shares@[i], vk);
                } else {
                    assert(self.shares@ =~= pre_shares.push(self.shares@.last()));
                    lemma_sum_push(pre_shares, self.shares@.last(), vk);
                }
                if k != idx as int {
                    assert(pre.vaults@[k].id != vault_id) by {
                        if k < idx as int {
                            assert(pre.vaults@[k].id < pre.vaults@[idx as int].id);
                        } else {
                            assert(pre.vaults@[idx as int].id < pre.vaults@[k].id);
                        }
                    }
                }
            }
            // Share rows still name known vaults and unique keys.
            assert(share_ids_below(self.shares@, self.next_vault_id)) by {
                assert forall|i: int| 0 <= i < self.shares@.len() implies (#[trigger] self.shares@[i]).vault_id
                    < self.next_vault_id by {
                    if i < pre_shares.len() {
                        assert(pre_shares[i].vault_id < pre.next_vault_id);
                    }
                }
            }
            assert(share_keys_unique(self.shares@)) by {
                assert forall|i: int, j: int| 0 <= i < j < self.shares@.len() implies !((
                #[trigger] self.shares@[i]).vault_id == (#[trigger] self.shares@[j]).vault_id
                    && self.shares@[i].address@ == self.shares@[j].address@) by {
                    if j < pre_shares.len() {
                        assert(!(pre_shares[i].vault_id == pre_shares[j].vault_id
                            && pre_shares[i].address@ == pre_shares[j].address@));
                    } else if !has_share_row(pre_shares, vault_id, a) {
                        assert(!(pre_shares[i].vault_id == vault_id && pre_shares[i].address@
                            == a));
                    }
                }
            }
            assert(position_keys_unique(self.positions@)) by {
                assert forall|i: int, j: int| 0 <= i < j < self.positions@.len() implies !((
                #[trigger] self.positions@[i]).vault_id == (#[trigger] self.positions@[j]).vault_id
                    && self.positions@[i].address@ == self.positions@[j].address@) by {
                    if j < pre_positions.len() {
                        assert(!(pre_positions[i].vault_id == pre_positions[j].vault_id
                            && pre_positions[i].address@ == pre_positions[j].address@));
                    } else if !has_position(pre_positions, vault_id, a) {
                        assert(!(pre_positions[i].vault_id == vault_id && pre_positions[i].address@
                            == a));
                    }
                }
            }
        }
        let resp = Response::new().add_event(event).add_attribute("action", "deposit_vault");
        proof {
            assert(resp@.messages =~= Seq::<BankSendView>::empty());
            assert(resp@.attributes =~= seq![("action"@, "deposit_vault"@)]);
            assert(resp@.events =~= seq![
                spec_evt_deposit_vault(
                    vault_id,
                    info.sender@,
                    amount.amount,
                    amount.denom@,
                    minted,
                ),
            ]);
        }
        Ok(resp)
    }
}

// ---------------------------------------------------------------------
// Withdraw.
// ---------------------------------------------------------------------
/// The payout for burning `s` shares: `s * tvl / total_shares`,
/// truncated toward zero in the vault's favour.
pub open spec fn spec_payout(v: Vault, s: u128) -> int {
    s * v.tvl / (v.total_shares as int)
}

/// Which failure, if any, a withdrawal meets, in the order the checks
/// run. The share count arrives as a decimal string; a malformed one is
/// rejected, as is burning zero, burning more than the caller owns, and
/// arithmetic that would overflow.
pub open spec fn withdraw_check(
    pre: VaultsEngine,
    vault_id: u64,
    shares_str: Seq<char>,
    sender: Seq<char>,
) -> Option<ContractError> {
    if !pre.has_vault(vault_id) {
        Some(ContractError::VaultNotFound)
    } else {
        let v = pre.vault_at(vault_id);
        if !(shares_str.len() > 0 && all_digits(shares_str) && dec_val(shares_str) <= u128::MAX) {
            Some(ContractError::InvalidAmount)
        } else {
            let s = dec_val(shares_str);
            if s == 0 {
                Some(ContractError::InvalidAmount)
            } else if pre.user_shares(vault_id, sender) < s {
                Some(ContractError::InsufficientShares)
            } else if s * v.tvl > u128::MAX {
                Some(ContractError::InvalidAmount)
            } else {
                None
            }
        }
    }
}

/// The account's share row shrinks by `s`: removed when it reaches
/// zero, updated in place otherwise.
pub open spec fn shares_debited(
    pre: Seq<ShareEntry>,
    post: Seq<ShareEntry>,
    vid: u64,
    addr: Seq<char>,
    s: u128,
) -> bool {
    &&& has_share_row(pre, vid, addr)
    &&& ({
        let i = share_row_idx(pre, vid, addr);
        if pre[i].shares == s {
            post == pre.remove(i)
        } else {
            post == pre.update(i, ShareEntry { shares: (pre[i].shares - s) as u128, ..pre[i] })
        }
    })
}

/// The position record disappears with the last share; absent records
/// stay absent.
pub open spec fn position_cleared(
    pre: Seq<UserPosition>,
    post: Seq<UserPosition>,
    vid: u64,
    addr: Seq<char>,
) -> bool {
    if has_position(pre, vid, addr) {
        post == pre.remove(position_idx(pre, vid, addr))
    } else {
        post == pre
    }
}

/// Everything a withdrawal does, as a relation between the engine
/// before and after.
pub open spec fn withdraw_rel(
    pre: VaultsEngine,
    post: VaultsEngine,
    sender: Seq<char>,
    vault_id: u64,
    shares_str: Seq<char>,
    r: Result<ResponseView, ContractError>,
) -> bool {
    &&& post.config == pre.config
    &&& post.next_vault_id == pre.next_vault_id
    &&& match withdraw_check(pre, vault_id, shares_str, sender) {
        Some(e) => r == Err::<ResponseView, ContractError>(e) && post == pre,
        None => {
            let v = pre.vault_at(vault_id);
            let idx = vault_idx(pre.vaults@, vault_id);
            let s = dec_val(shares_str) as u128;
            let payout = spec_payout(v, s) as u128;
            &&& post.vaults@ == pre.vaults@.update(
                idx,
                Vault {
                    tvl: (v.tvl - payout) as u128,
                    total_shares: (v.total_shares - s) as u128,
                    ..v
                },
            )
            &&& shares_debited(pre.shares@, post.shares@, vault_id, sender, s)
            &&& (pre.user_shares(vault_id, sender) == s ==> position_cleared(
                pre.positions@,
                post.positions@,
                vault_id,
                sender,
            ))
            &&& (pre.user_shares(vault_id, sender) > s ==> post.positions@ == pre.positions@)
            &&& post.user_shares(vault_id, sender) == pre.user_shares(vault_id, sender) - s
            &&& r == Ok::<ResponseView, ContractError>(
                ResponseView {
                    messages: seq![
                        BankSendView {
                            to_address: sender,
                            amount: seq![CoinView { denom: v.denom@, amount: payout }],
                        },
                    ],
                    attributes: seq![("action"@, "withdraw_vault"@)],
                    events: seq![spec_evt_withdraw_vault(vault_id, sender, s, payout, v.denom@)],
                },
            )
        },
    }
}

/// Burning `s` of `total` shares pays out at most the locked value;
/// burning them all pays out exactly the locked value, and burning
/// fewer leaves value behind.
proof fn lemma_payout_bounds(s: int, tvl: int, total: int)
    requires
        1 <= s <= total,
        0 <= tvl,
    ensures
        0 <= s * tvl / total <= tvl,
        s == total ==> s * tvl / total == tvl,
        s < total && tvl > 0 ==> s * tvl / total < tvl,
{
    vstd::arithmetic::mul::lemma_mul_nonnegative(s, tvl);
    vstd::arithmetic::div_mod::lemma_div_pos_is_pos(s * tvl, total);
    vstd::arithmetic::mul::lemma_mul_inequality(s, total, tvl);
    vstd::arithmetic::div_mod::lemma_div_is_ordered(s * tvl, total * tvl, total);
    vstd::arithmetic::div_mod::lemma_div_multiples_vanish(tvl, total);
    assert(total * tvl / total == tvl);
    if s < total && tvl > 0 {
        vstd::arithmetic::mul::lemma_mul_strict_inequality(s, total, tvl);
        vstd::arithmetic::div_mod::lemma_multiply_divide_lt(s * tvl, total, tvl);
    }
}

impl VaultsEngine {
    /// Burns shares for a proportional payout. Rejects an unknown
    /// vault, a malformed or zero share string, a request for more
    /// shares than the caller owns (`InsufficientShares`, mutating
    /// nothing), and arithmetic that would overflow. On success the
    /// payout is sent to the caller, and the position record disappears
    /// when the last share is burned.
    pub fn exec_withdraw(
        &mut self,
        env: &Env,
        info: &MessageInfo,
        vault_id: u64,
        shares: String,
    ) -> (r: Result<Response, ContractError>)
        requires
            old(self).wf(),
        ensures
            final(self).wf(),
            withdraw_rel(
                *old(self),
                *final(self),
                info.sender@,
                vault_id,
                shares@,
                result_view(r),
            ),
    {
        let idx = match find_vault(&self.vaults, vault_id) {
            Some(i) => i,
            None => {
                return Err(ContractError::VaultNotFound);
            },
        };
        proof {
            lemma_vault_idx(self.vaults@, idx as int);
        }
        let s: u128 = match parse_u128(shares.as_str()) {
            Some(v) => v,
            None => {
                return Err(ContractError::InvalidAmount);
            },
        };
        if s == 0 {
            return Err(ContractError::InvalidAmount);
        }
        let j = match find_share(&self.shares, vault_id, info.sender.as_str()) {
            Some(j) => j,
            None => {
                proof {
                    lemma_owned_absent(self.shares@, vault_id, info.sender@);
                }
                return Err(ContractError::InsufficientShares);
            },
        };
        proof {
            lemma_owned_entry(self.shares@, j as int);
        }
        let user_shares = self.shares[j].shares;
        if user_shares < s {
            return Err(ContractError::InsufficientShares);
        }
        let ghost v = self.vaults@[idx as int];
        let v_total = self.vaults[idx].total_shares;
        let v_tvl = self.vaults[idx].tvl;
        proof {
            lemma_owned_le_sum(self.shares@, vault_id, info.sender@);
            assert(sum_for(self.shares@, vault_id) == v.total_shares as int);
            lemma_payout_bounds(s as int, v_tvl as int, v_total as int);
        }
        let prod = match s.checked_mul(v_tvl) {
            Some(p) => p,
            None => {
                return Err(ContractError::InvalidAmount);
            },
        };
        let payout = prod / v_total;
        let new_tvl = v_tvl - payout;
        let new_total = v_total - s;

        let mut vault = self.vaults.remove(idx);
        let denom = vault.denom.clone();
        vault.tvl = new_tvl;
        vault.total_shares = new_total;
        self.vaults.insert(idx, vault);
        proof {
            assert(self.vaults@ =~= old(self).vaults@.update(
                idx as int,
                Vault {
                    tvl: (v.tvl - spec_payout(v, s)) as u128,
                    total_shares: (v.total_shares - s) as u128,
                    ..v
                },
            ));
        }
        let ghost pre_shares = old(self).shares@;
        let ghost pre_positions = old(self).positions@;
        let ghost a = info.sender@;
        proof {
            let i = share_row_idx(pre_shares, vault_id, a);
            assert(i == j) by {
                if i != j as int {
                    assert(!share_keys_unique(pre_shares));
                }
            }
        }
        let new_user = user_shares - s;
        if new_user == 0 {
            self.shares.remove(j);
            match find_position(&self.positions, vault_id, info.sender.as_str()) {
                Some(pj) => {
                    self.positions.remove(pj);
                    proof {
                        let pi = position_idx(pre_positions, vault_id, a);
                        assert(pi == pj) by {
                            if pi != pj as int {
                                assert(!position_keys_unique(pre_positions));
                            }
                        }
                    }
                },
                None => {
                },
            }
        } else {
            let mut e = self.shares.remove(j);
            e.shares = new_user;
            self.shares.insert(j, e);
            proof {
                assert(self.shares@ =~= pre_shares.update(
                    j as int,
                    ShareEntry { shares: (pre_shares[j as int].shares - s) as u128, ..pre_shares[j as int] },
                ));
            }
        }
        proof {
            // The account's holding fell by exactly the burned shares.
            if new_user == 0 {
                lemma_owned_remove(pre_shares, j as int, vault_id, a);
            } else {
                lemma_owned_update(pre_shares, j as int, self.shares@[j as int], vault_id, a);
            }
            // Ids and order of the vault list are untouched.
            assert forall|k: int| 0 <= k < self.vaults@.len() implies (#[trigger] self.vaults@[k]).id
                == old(self).vaults@[k].id by {}
            // Conservation holds vault by vault.
            assert forall|k: int| 0 <= k < self.vaults@.len() implies sum_for(
                self.shares@,
                (#[trigger] self.vaults@[k]).id,
            ) == self.vaults@[k].total_shares as int by {
                let vk = old(self).vaults@[k].id;
                if new_user == 0 {
                    lemma_sum_remove(pre_shares, j as int, vk);
                } else {
                    lemma_sum_update(pre_shares, j as int, self.shares@[j as int], vk);
                }
                if k != idx as int {
                    assert(old(self).vaults@[k].id != vault_id) by {
                        if k < idx as int {
                            assert(old(self).vaults@[k].id < old(self).vaults@[idx as int].id);
                        } else {
                            assert(old(self).vaults@[idx as int].id < old(self).vaults@[k].id);
                        }
                    }
                }
            }
            // Share rows still name known vaults and unique keys.
            assert(share_ids_below(self.shares@, self.next_vault_id)) by {
                assert forall|i: int| 0 <= i < self.shares@.len() implies (#[trigger] self.shares@[i]).vault_id
                    < self.next_vault_id by {
                    if new_user == 0 {
                        if i < j as int {
                            assert(self.shares@[i] == pre_shares[i]);
                        } else {
                            assert(self.shares@[i] == pre_shares[i + 1]);
                        }
                    } else {
                        assert(pre_shares[i].vault_id < self.next_vault_id);
                    }
                }
            }
            assert(share_keys_unique(self.shares@)) by {
                assert forall|p: int, q: int| 0 <= p < q < self.shares@.len() implies !((
                #[trigger] self.shares@[p]).vault_id == (#[trigger] self.shares@[q]).vault_id
                    && self.shares@[p].address@ == self.shares@[q].address@) by {
                    if new_user == 0 {
                        let p0: int = if p < j as int { p } else { p + 1 };
                        let q0: int = if q < j as int { q } else { q + 1 };
                        assert(self.shares@[p] == pre_shares[p0]);
                        assert(self.shares@[q] == pre_shares[q0]);
                        assert(!(pre_shares[p0].vault_id == pre_shares[q0].vault_id
                            && pre_shares[p0].address@ == pre_shares[q0].address@));
                    } else {
                        assert(!(pre_shares[p].vault_id == pre_shares[q].vault_id
                            && pre_shares[p].address@ == pre_shares[q].address@));
                    }
                }
            }
            assert(position_keys_unique(self.positions@)) by {
                if new_user == 0 && has_position(pre_positions, vault_id, a) {
                    let pj = position_idx(pre_positions, vault_id, a);
                    assert forall|p: int, q: int| 0 <= p < q < self.positions@.len() implies !((
                    #[trigger] self.positions@[p]).vault_id
                        == (#[trigger] self.positions@[q]).vault_id && self.positions@[p].address@
                        == self.positions@[q].address@) by {
                        let p0: int = if p < pj { p } else { p + 1 };
                        let q0: int = if q < pj { q } else { q + 1 };
                        assert(self.positions@[p] == pre_positions[p0]);
                        assert(self.positions@[q] == pre_positions[q0]);
                        assert(!(pre_positions[p0].vault_id == pre_positions[q0].vault_id
                            && pre_positions[p0].address@ == pre_positions[q0].address@));
                    }
                }
            }
            // Shares exist exactly while value is locked, vault by vault.
            assert forall|k: int| 0 <= k < self.vaults@.len() implies ((
            #[trigger] self.vaults@[k]).total_shares == 0 <==> self.vaults@[k].tvl == 0) by {
                if k == idx as int {
                    if s == v_total {
                        assert(spec_payout(v, s) == v.tvl);
                    } else {
                        assert(v.total_shares - s > 0);
                        if v.tvl > 0 {
                            assert(spec_payout(v, s) < v.tvl);
                        }
                    }
                }
            }
        }
        let coin = Coin { denom, amount: payout };
        let event = evt_withdraw_vault(vault_id, info.sender.as_str(), &s, &coin);
        let mut coins: Vec<Coin> = Vec::new();
        coins.push(coin);
        let bank = BankSend { to_address: info.sender.clone(), amount: coins };
        proof {
            assert(bank@.amount =~= seq![CoinView { denom: v.denom@, amount: payout }]);
        }
        let resp = Response::new().add_message(bank).add_event(event).add_attribute(
            "action",
            "withdraw_vault",
        );
        proof {
            assert(resp@.messages =~= seq![
                BankSendView {
                    to_address: a,
                    amount: seq![CoinView { denom: v.denom@, amount: payout }],
                },
            ]);
            assert(resp@.attributes =~= seq![("action"@, "withdraw_vault"@)]);
            assert(resp@.events =~= seq![
                spec_evt_withdraw_vault(vault_id, a, s, payout, v.denom@),
            ]);
        }
        Ok(resp)
    }
}

// ---------------------------------------------------------------------
// Harvest and rebalance.
// ---------------------------------------------------------------------
/// Which failure, if any, a harvest meets.
pub open spec fn harvest_check(pre: VaultsEngine, vault_id: u64, sender: Seq<char>) -> Option<
    ContractError,
> {
    if !pre.has_vault(vault_id) {
        Some(ContractError::VaultNotFound)
    } else if sender != pre.config.admin@ {
        Some(ContractError::Unauthorized)
    } else {
        None
    }
}

/// A harvest only reports: it emits a zero-yield event and mutates
/// nothing (yield computation depends on external protocol adapters).
pub open spec fn harvest_rel(
    pre: VaultsEngine,
    post: VaultsEngine,
    sender: Seq<char>,
    vault_id: u64,
    r: Result<ResponseView, ContractError>,
) -> bool {
    &&& post == pre
    &&& match harvest_check(pre, vault_id, sender) {
        Some(e) => r == Err::<ResponseView, ContractError>(e),
        None => r == Ok::<ResponseView, ContractError>(
            ResponseView {
                messages: Seq::empty(),
                attributes: seq![("action"@, "harvest_vault"@)],
                events: seq![
                    spec_evt_harvest_vault(vault_id, 0, pre.vault_at(vault_id).denom@),
                ],
            },
        ),
    }
}

/// Which failure, if any, a rebalance meets.
pub open spec fn rebalance_check(
    pre: VaultsEngine,
    vault_id: u64,
    sender: Seq<char>,
    plan: AllocationPlan,
) -> Option<ContractError> {
    if !pre.has_vault(vault_id) {
        Some(ContractError::VaultNotFound)
    } else if sender != pre.config.admin@ {
        Some(ContractError::Unauthorized)
    } else if legs_weight_sum(plan.legs@) > 10000 {
        Some(ContractError::AllocationExceeds100)
    } else {
        None
    }
}

/// A rebalance replaces the vault's allocation legs wholesale; it is
/// bookkeeping only and moves no custodied funds.
pub open spec fn rebalance_rel(
    pre: VaultsEngine,
    post: VaultsEngine,
    sender: Seq<char>,
    vault_id: u64,
    plan: AllocationPlan,
    r: Result<ResponseView, ContractError>,
) -> bool {
    &&& post.config == pre.config
    &&& post.next_vault_id == pre.next_vault_id
    &&& post.shares@ == pre.shares@
    &&& post.positions@ == pre.positions@
    &&& match rebalance_check(pre, vault_id, sender, plan) {
        Some(e) => r == Err::<ResponseView, ContractError>(e) && post == pre,
        None => {
            let v = pre.vault_at(vault_id);
            let idx = vault_idx(pre.vaults@, vault_id);
            &&& post.vaults@ == pre.vaults@.update(idx, Vault { allocations: plan.legs, ..v })
            &&& r == Ok::<ResponseView, ContractError>(
                ResponseView {
                    messages: Seq::empty(),
                    attributes: seq![("action"@, "rebalance_vault"@)],
                    events: seq![
                        spec_evt_rebalance_vault(
                            vault_id,
                            crate::strings::dec_of(plan.legs@.len() as nat) + " legs"@,
                        ),
                    ],
                },
            )
        },
    }
}

impl VaultsEngine {
    /// Emits a zero-yield harvest event for a vault. Only the
    /// administrator may harvest; nothing is mutated.
    pub fn exec_harvest(&mut self, info: &MessageInfo, vault_id: u64) -> (r: Result<
        Response,
        ContractError,
    >)
        requires
            old(self).wf(),
        ensures
            final(self).wf(),
            harvest_rel(*old(self), *final(self), info.sender@, vault_id, result_view(r)),
    {
        let idx = match find_vault(&self.vaults, vault_id) {
            Some(i) => i,
            None => {
                return Err(ContractError::VaultNotFound);
            },
        };
        proof {
            lemma_vault_idx(self.vaults@, idx as int);
        }
        if !str_eq(info.sender.as_str(), self.config.admin.as_str()) {
            return Err(ContractError::Unauthorized);
        }
        let yield_amount = Coin { denom: self.vaults[idx].denom.clone(), amount: 0 };
        let event = evt_harvest_vault(vault_id, &yield_amount);
        let resp = Response::new().add_event(event).add_attribute("action", "harvest_vault");
        proof {
            assert(resp@.messages =~= Seq::<BankSendView>::empty());
            assert(resp@.attributes =~= seq![("action"@, "harvest_vault"@)]);
            assert(resp@.events =~= seq![event@]);
        }
        Ok(resp)
    }

    /// Replaces a vault's allocation legs with the plan's, after
    /// checking that the plan allocates at most the whole. Only the
    /// administrator may rebalance.
    pub fn exec_rebalance(&mut self, info: &MessageInfo, vault_id: u64, plan: AllocationPlan) -> (r:
        Result<Response, ContractError>)
        requires
            old(self).wf(),
        ensures
            final(self).wf(),
            rebalance_rel(*old(self), *final(self), info.sender@, vault_id, plan, result_view(r)),
    {
        let idx = match find_vault(&self.vaults, vault_id) {
            Some(i) => i,
            None => {
                return Err(ContractError::VaultNotFound);
            },
        };
        proof {
            lemma_vault_idx(self.vaults@, idx as int);
        }
        if !str_eq(info.sender.as_str(), self.config.admin.as_str()) {
            return Err(ContractError::Unauthorized);
        }
        if let Err(e) = validate_allocation_plan(&plan) {
            return Err(e);
        }
        let ghost v = self.vaults@[idx as int];
        let n_legs = plan.legs.len();
        let mut vault = self.vaults.remove(idx);
        vault.allocations = plan.legs;
        self.vaults.insert(idx, vault);
        proof {
            assert(self.vaults@ =~= old(self).vaults@.update(
                idx as int,
                Vault { allocations: plan.legs, ..v },
            ));
        }
        let mut legs_text = u64_to_dec(n_legs as u64);
        legs_text.append(" legs");
        let event = evt_rebalance_vault(vault_id, legs_text.as_str());
        proof {
            // The update keeps every id, total and locked value.
            assert forall|k: int| 0 <= k < self.vaults@.len() implies (#[trigger] self.vaults@[k]).id
                == old(self).vaults@[k].id && self.vaults@[k].total_shares == old(
                self,
            ).vaults@[k].total_shares && self.vaults@[k].tvl == old(self).vaults@[k].tvl by {}
        }
        let resp = Response::new().add_event(event).add_attribute("action", "rebalance_vault");
        proof {
            assert(resp@.messages =~= Seq::<BankSendView>::empty());
            assert(resp@.attributes =~= seq![("action"@, "rebalance_vault"@)]);
            assert(resp@.events =~= seq![event@]);
        }
        Ok(resp)
    }

    /// One command dispatch: the engine's whole mutating interface.
    pub fn execute(&mut self, env: &Env, info: &MessageInfo, msg: ExecuteMsg) -> (r: Result<
        Response,
        ContractError,
    >)
        requires
            old(self).wf(),
            msg is CreateVault ==> old(self).next_vault_id < u64::MAX,
        ensures
            final(self).wf(),
            match msg {
                ExecuteMsg::CreateVault { label, denom, strategy, fee_bps } => create_vault_rel(
                    *old(self),
                    *final(self),
                    env.block_time.spec_seconds(),
                    info.sender@,
                    label,
                    denom,
                    strategy,
                    fee_bps,
                    result_view(r),
                ),
                ExecuteMsg::Deposit { vault_id, amount } => deposit_rel(
                    *old(self),
                    *final(self),
                    env.block_time.spec_seconds(),
                    info.sender@,
                    vault_id,
                    amount,
                    result_view(r),
                ),
                ExecuteMsg::Withdraw { vault_id, shares } => withdraw_rel(
                    *old(self),
                    *final(self),
                    info.sender@,
                    vault_id,
                    shares@,
                    result_view(r),
                ),
                ExecuteMsg::Harvest { vault_id } => harvest_rel(
                    *old(self),
                    *final(self),
                    info.sender@,
                    vault_id,
                    result_view(r),
                ),
                ExecuteMsg::Rebalance { vault_id, plan } => rebalance_rel(
                    *old(self),
                    *final(self),
                    info.sender@,
                    vault_id,
                    plan,
                    result_view(r),
                ),
            },
    {
        match msg {
            ExecuteMsg::CreateVault { label, denom, strategy, fee_bps } => self.exec_create_vault(
                env,
                info,
                label,
                denom,
                strategy,
                fee_bps,
            ),
            ExecuteMsg::Deposit { vault_id, amount } => self.exec_deposit(
                env,
                info,
                vault_id,
                amount,
            ),
            ExecuteMsg::Withdraw { vault_id, shares } => self.exec_withdraw(
                env,
                info,
                vault_id,
                shares,
            ),
            ExecuteMsg::Harvest { vault_id } => self.exec_harvest(info, vault_id),
            ExecuteMsg::Rebalance { vault_id, plan } => self.exec_rebalance(info, vault_id, plan),
        }
    }
}

// ---------------------------------------------------------------------
// Queries.
// ---------------------------------------------------------------------
/// The ghost shape of one allocation leg in a vault answer: tracked
/// amounts are reported as zero until leg-level tracking exists.
pub open spec fn spec_leg_resp(leg: AllocationLeg) -> AllocationLegRespView {
    AllocationLegRespView {
        protocol: leg.protocol,
        weight_bps: leg.weight_bps,
        current_amount: "0"@,
        target_amount: leg.target_amount@,
    }
}

/// The ghost shape of a vault answer: magnitudes leave as decimal
/// strings.
pub open spec fn spec_vault_resp(v: Vault) -> VaultRespView {
    VaultRespView {
        id: v.id,
        label: v.label@,
        denom: v.denom@,
        strategy: v.strategy.deep_view(),
        fee_bps: v.fee_bps,
        tvl: dec_of(v.tvl as nat),
        total_shares: dec_of(v.total_shares as nat),
        created_at: v.created_at,
        allocations: v.allocations@.map_values(|leg: AllocationLeg| spec_leg_resp(leg)),
    }
}

fn vault_to_resp(v: &Vault) -> (r: VaultResp)
    ensures
        r@ == spec_vault_resp(*v),
{
    let mut allocations: Vec<AllocationLegResp> = Vec::new();
    let ghost target = v.allocations@.map_values(|leg: AllocationLeg| spec_leg_resp(leg));
    let mut i: usize = 0;
    while i < v.allocations.len()
        invariant
            0 <= i <= v.allocations@.len(),
            target == v.allocations@.map_values(|leg: AllocationLeg| spec_leg_resp(leg)),
            allocations@.len() == i,
            forall|k: int| 0 <= k < i ==> (#[trigger] allocations@[k]).deep_view() == target[k],
        decreases v.allocations@.len() - i,
    {
        let leg = &v.allocations[i];
        allocations.push(
            AllocationLegResp {
                protocol: leg.protocol,
                weight_bps: leg.weight_bps,
                current_amount: String::from_str("0"),
                target_amount: leg.target_amount.clone(),
            },
        );
        proof {
            assert(target[i as int] == spec_leg_resp(v.allocations@[i as int]));
            assert(allocations@[i as int].deep_view() == target[i as int]);
        }
        i = i + 1;
    }
    proof {
        assert forall|k: int| 0 <= k < target.len() implies allocations.deep_view()[k]
            == target[k] by {
            assert(allocations.deep_view()[k] == allocations@[k].deep_view());
        }
        assert(allocations.deep_view() =~= target);
    }
    let r = VaultResp {
        id: v.id,
        label: v.label.clone(),
        denom: v.denom.clone(),
        strategy: v.strategy.duplicate(),
        fee_bps: v.fee_bps,
        tvl: u128_to_dec(v.tvl),
        total_shares: u128_to_dec(v.total_shares),
        created_at: v.created_at,
        allocations,
    };
    r
}

impl VaultsEngine {
    /// The configuration, as a query answer.
    pub fn query_config(&self) -> (r: ConfigResp)
        ensures
            r@.admin == self.config.admin@,
            r@.default_denom == self.config.default_denom@,
            r@.max_fee_bps == self.config.max_fee_bps,
    {
        ConfigResp {
            admin: self.config.admin.clone(),
            default_denom: self.config.default_denom.clone(),
            max_fee_bps: self.config.max_fee_bps,
        }
    }

    /// One vault by id, or nothing when the id is unknown.
    pub fn get_vault(&self, id: u64) -> (r: Option<VaultResp>)
        requires
            self.wf(),
        ensures
            r is Some <==> self.has_vault(id),
            r is Some ==> r->0@ == spec_vault_resp(self.vault_at(id)),
    {
        match find_vault(&self.vaults, id) {
            Some(i) => {
                proof {
                    lemma_vault_idx(self.vaults@, i as int);
                }
                Some(vault_to_resp(&self.vaults[i]))
            },
            None => None,
        }
    }
}

/// The value of an account's shares at the current price, truncated.
pub open spec fn spec_position_value(v: Vault, shares: int) -> int {
    if v.total_shares == 0 {
        0
    } else {
        shares * v.tvl / (v.total_shares as int)
    }
}

/// Which failure, if any, a position query meets: the vault must exist
/// and the valuation arithmetic must fit.
pub open spec fn user_position_check(pre: VaultsEngine, vault_id: u64, addr: Seq<char>) -> Option<
    ContractError,
> {
    if !pre.has_vault(vault_id) {
        Some(ContractError::VaultNotFound)
    } else {
        let v = pre.vault_at(vault_id);
        if v.total_shares != 0 && pre.user_shares(vault_id, addr) * v.tvl > u128::MAX {
            Some(ContractError::InvalidAmount)
        } else {
            None
        }
    }
}

impl VaultsEngine {
    /// An account's recorded shares in a vault and their value at the
    /// current share price (zero shares when no row exists).
    pub fn user_position(&self, vault_id: u64, address: &str) -> (r: Result<
        UserPositionResp,
        ContractError,
    >)
        requires
            self.wf(),
        ensures
            match user_position_check(*self, vault_id, address@) {
                Some(e) => r == Err::<UserPositionResp, ContractError>(e),
                None => {
                    let v = self.vault_at(vault_id);
                    let sh = self.user_shares(vault_id, address@);
                    &&& r is Ok
                    &&& r->Ok_0@ == UserPositionRespView {
                        vault_id: vault_id,
                        address: address@,
                        shares: dec_of(sh as nat),
                        value: dec_of(spec_position_value(v, sh) as nat),
                        deposited_at: 0,
                    }
                },
            },
    {
        let shares: u128 = match find_share(&self.shares, vault_id, address) {
            Some(j) => {
                proof {
                    lemma_owned_entry(self.shares@, j as int);
                }
                self.shares[j].shares
            },
            None => {
                proof {
                    lemma_owned_absent(self.shares@, vault_id, address@);
                }
                0
            },
        };
        let idx = match find_vault(&self.vaults, vault_id) {
            Some(i) => i,
            None => {
                return Err(ContractError::VaultNotFound);
            },
        };
        proof {
            lemma_vault_idx(self.vaults@, idx as int);
        }
        let v_total = self.vaults[idx].total_shares;
        let v_tvl = self.vaults[idx].tvl;
        let value: u128 = if v_total == 0 {
            0
        } else {
            let prod = match shares.checked_mul(v_tvl) {
                Some(p) => p,
                None => {
                    return Err(ContractError::InvalidAmount);
                },
            };
            proof {
                vstd::arithmetic::div_mod::lemma_div_pos_is_pos(
                    shares * v_tvl,
                    v_total as int,
                );
            }
            prod / v_total
        };
        Ok(
            UserPositionResp {
                vault_id,
                address: address.to_owned(),
                shares: u128_to_dec(shares),
                value: u128_to_dec(value),
                deposited_at: 0,
            },
        )
    }
}

// ---------------------------------------------------------------------
// Paged listing.
// ---------------------------------------------------------------------
/// How many vaults have an id at or below the cursor.
pub open spec fn count_le(vaults: Seq<Vault>, start: u64) -> int
    decreases vaults.len(),
{
    if vaults.len() == 0 {
        0
    } else {
        count_le(vaults.drop_last(), start) + if vaults.last().id <= start {
            1int
        } else {
            0int
        }
    }
}

/// In a sorted list, the cursor count is exactly the boundary index:
/// everything before it is at or below the cursor, everything from it
/// on is above.
proof fn lemma_count_le_boundary(vaults: Seq<Vault>, start: u64, b: int)
    requires
        vaults_sorted(vaults),
        0 <= b <= vaults.len(),
        forall|k: int| 0 <= k < b ==> (#[trigger] vaults[k]).id <= start,
        b < vaults.len() ==> vaults[b].id > start,
    ensures
        count_le(vaults, start) == b,
    decreases vaults.len(),
{
    if vaults.len() == 0 {
    } else {
        let prefix = vaults.drop_last();
        assert(vaults_sorted(prefix));
        if b == vaults.len() {
            lemma_count_le_boundary(prefix, start, b - 1);
        } else {
            assert(vaults[b].id > start);
            if b == vaults.len() - 1 {
                lemma_count_le_boundary(prefix, start, b);
            } else {
                assert(vaults[b].id < vaults.last().id);
                lemma_count_le_boundary(prefix, start, b);
            }
        }
    }
}

/// Where a page begins: just past the cursor, or at the start.
pub open spec fn page_start(vaults: Seq<Vault>, start_after: Option<u64>) -> int {
    match start_after {
        Some(s) => count_le(vaults, s),
        None => 0,
    }
}

/// The page size cap: the given limit, or 30.
pub open spec fn page_limit(limit: Option<u32>) -> int {
    match limit {
        Some(l) => l as int,
        None => 30,
    }
}

/// The page a vault listing returns: at most `limit` vault answers,
/// in id order, starting strictly after the cursor.
pub open spec fn vaults_page(
    vaults: Seq<Vault>,
    start_after: Option<u64>,
    limit: Option<u32>,
) -> Seq<VaultRespView> {
    let s = page_start(vaults, start_after);
    let n = if page_limit(limit) <= vaults.len() - s {
        page_limit(limit)
    } else {
        vaults.len() - s
    };
    Seq::new(n as nat, |j: int| spec_vault_resp(vaults[s + j]))
}

impl VaultsEngine {
    /// Lists vaults in id order, beginning strictly after the cursor,
    /// at most `limit` (30 when unnamed) of them. The page is a pure
    /// function of the stored vaults, the cursor and the limit.
    pub fn list_vaults(&self, start_after: Option<u64>, limit: Option<u32>) -> (r: Vec<VaultResp>)
        requires
            self.wf(),
        ensures
            r.deep_view() == vaults_page(self.vaults@, start_after, limit),
    {
        let lim: usize = match limit {
            Some(l) => l as usize,
            None => 30,
        };
        let n = self.vaults.len();
        let mut i: usize = 0;
        match start_after {
            Some(start) => {
                while i < n && self.vaults[i].id <= start
                    invariant
                        0 <= i <= n == self.vaults@.len(),
                        forall|k: int| 0 <= k < i ==> (#[trigger] self.vaults@[k]).id <= start,
                    decreases n - i,
                {
                    i = i + 1;
                }
                proof {
                    lemma_count_le_boundary(self.vaults@, start, i as int);
                }
            },
            None => {
            },
        }
        let ghost s = page_start(self.vaults@, start_after);
        let ghost page = vaults_page(self.vaults@, start_after, limit);
        let start_idx = i;
        let mut out: Vec<VaultResp> = Vec::new();
        while i < n && out.len() < lim
            invariant
                0 <= start_idx <= i <= n == self.vaults@.len(),
                s == start_idx as int,
                s == page_start(self.vaults@, start_after),
                lim == page_limit(limit),
                page == vaults_page(self.vaults@, start_after, limit),
                page.len() == if page_limit(limit) <= n - s {
                    page_limit(limit)
                } else {
                    n - s
                },
                out@.len() == i - start_idx,
                out@.len() <= lim,
                forall|k: int| 0 <= k < out@.len() ==> (#[trigger] out@[k])@ == page[k],
            decreases n - i,
        {
            let ghost j = i - start_idx;
            out.push(vault_to_resp(&self.vaults[i]));
            proof {
                assert(0 <= j < page.len());
                assert(page[j as int] == spec_vault_resp(self.vaults@[s + j]));
                assert(out@[j as int]@ == spec_vault_resp(self.vaults@[i as int]));
            }
            i = i + 1;
        }
        proof {
            assert(page.len() == out@.len());
            assert forall|k: int| 0 <= k < page.len() implies out.deep_view()[k] == page[k] by {
                assert(out.deep_view()[k] == out@[k].deep_view());
            }
            assert(out.deep_view() =~= page);
        }
        out
    }

    /// One query dispatch: the engine's whole read-only interface.
    pub fn query(&self, msg: QueryMsg) -> (r: Result<QueryAnswer, ContractError>)
        requires
            self.wf(),
        ensures
            match msg {
                QueryMsg::Config {} => {
                    &&& r is Ok
                    &&& r->Ok_0 matches QueryAnswer::Config(c)
                    &&& r->Ok_0->Config_0@.admin == self.config.admin@
                    &&& r->Ok_0->Config_0@.default_denom == self.config.default_denom@
                    &&& r->Ok_0->Config_0@.max_fee_bps == self.config.max_fee_bps
                },
                QueryMsg::GetVault { id } => if self.has_vault(id) {
                    r == Ok::<QueryAnswer, ContractError>(
                        QueryAnswer::Vault(r->Ok_0->Vault_0),
                    ) && r->Ok_0->Vault_0@ == spec_vault_resp(self.vault_at(id))
                } else {
                    r == Err::<QueryAnswer, ContractError>(ContractError::VaultNotFound)
                },
                QueryMsg::UserPosition { vault_id, address } => match user_position_check(
                    *self,
                    vault_id,
                    address@,
                ) {
                    Some(e) => r == Err::<QueryAnswer, ContractError>(e),
                    None => {
                        let v = self.vault_at(vault_id);
                        let sh = self.user_shares(vault_id, address@);
                        &&& r is Ok
                        &&& r->Ok_0 matches QueryAnswer::Position(p)
                        &&& r->Ok_0->Position_0@ == UserPositionRespView {
                            vault_id: vault_id,
                            address: address@,
                            shares: dec_of(sh as nat),
                            value: dec_of(spec_position_value(v, sh) as nat),
                            deposited_at: 0,
                        }
                    },
                },
                QueryMsg::ListVaults { start_after, limit } => {
                    &&& r is Ok
                    &&& r->Ok_0 matches QueryAnswer::Vaults(vs)
                    &&& r->Ok_0->Vaults_0.deep_view() == vaults_page(
                        self.vaults@,
                        start_after,
                        limit,
                    )
                },
            },
    {
        match msg {
            QueryMsg::Config {} => Ok(QueryAnswer::Config(self.query_config())),
            QueryMsg::GetVault { id } => match self.get_vault(id) {
                Some(v) => Ok(QueryAnswer::Vault(v)),
                None => Err(ContractError::VaultNotFound),
            },
            QueryMsg::UserPosition { vault_id, address } => match self.user_position(
                vault_id,
                address.as_str(),
            ) {
                Ok(p) => Ok(QueryAnswer::Position(p)),
                Err(e) => Err(e),
            },
            QueryMsg::ListVaults { start_after, limit } => Ok(
                QueryAnswer::Vaults(self.list_vaults(start_after, limit)),
            ),
        }
    }
}

/// Conservation law: in every well-formed engine state — and every
/// state reachable from instantiation through commands is one — each
/// vault's per-account share rows sum to exactly the vault's recorded
/// `total_shares`.
pub proof fn lemma_share_conservation(e: VaultsEngine, k: int)
    requires
        e.wf(),
        0 <= k < e.vaults@.len(),
    ensures
        sum_for(e.shares@, e.vaults@[k].id) == e.vaults@[k].total_shares as int,
{
}

/// No-negative-balance law: no account's holding exceeds its vault's
/// share total, so no withdrawal within the recorded holding can drive
/// the vault's totals below zero.
pub proof fn lemma_user_shares_bounded(e: VaultsEngine, k: int, addr: Seq<char>)
    requires
        e.wf(),
        0 <= k < e.vaults@.len(),
    ensures
        0 <= e.user_shares(e.vaults@[k].id, addr) <= e.vaults@[k].total_shares,
{
    lemma_owned_le_sum(e.shares@, e.vaults@[k].id, addr);
}

/// Read queries are deterministic: against one engine state, the same
/// cursor and the same limit always name the same page, however often
/// the query runs.
pub proof fn lemma_list_vaults_deterministic(
    e: VaultsEngine,
    start_after: Option<u64>,
    limit: Option<u32>,
    r1: Seq<VaultRespView>,
    r2: Seq<VaultRespView>,
)
    requires
        r1 == vaults_page(e.vaults@, start_after, limit),
        r2 == vaults_page(e.vaults@, start_after, limit),
    ensures
        r1 == r2,
{
}

} // verus!
