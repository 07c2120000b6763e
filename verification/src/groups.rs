//! The contribution-pool component: a creator sets a funding target,
//! participants contribute toward it, and the pool is either
//! distributed to the creator once the target is reached or cancelled
//! with contributions refunded.

use vstd::prelude::*;

use crate::host::BankSend;
use crate::host::BankSendView;
use crate::host::Coin;
use crate::host::CoinView;
use crate::host::Env;
use crate::host::Event;
use crate::host::EventView;
use crate::host::MessageInfo;
use crate::host::Response;
use crate::host::ResponseView;
use crate::strings::clone_opt_string;
use crate::strings::clone_string_vec;
use crate::strings::contains_str;
use crate::strings::dec_of;
use crate::strings::seq_has_str;
use crate::strings::str_eq;
use crate::strings::u128_to_dec;
use crate::strings::u64_to_dec;

verus! {

#[derive(Clone, Debug, PartialEq, Eq)]
pub struct InstantiateMsg {
    pub admin: Option<String>,
    pub default_denom: String,
    pub max_participants: Option<u32>,
}

#[derive(Clone, Debug, PartialEq, Eq)]
pub enum ExecuteMsg {
    CreatePool {
        target: Coin,
        max_participants: Option<u32>,
        memo: Option<String>,
        expiry_ts: Option<u64>,
    },
    Contribute { pool_id: u64, amount: Coin },
    Distribute { pool_id: u64 },
    CancelPool { pool_id: u64 },
    RefundContribution { pool_id: u64 },
}

#[derive(Clone, Debug, PartialEq, Eq)]
pub enum QueryMsg {
    Config {},
    GetPool { id: u64 },
    ListContributions { pool_id: u64, start_after: Option<String>, limit: Option<u32> },
    ListPools { start_after: Option<u64>, limit: Option<u32> },
}

#[derive(Clone, Debug, PartialEq, Eq)]
pub struct ConfigResp {
    pub admin: String,
    pub default_denom: String,
    pub max_participants: u32,
}

pub struct ConfigRespView {
    pub admin: Seq<char>,
    pub default_denom: Seq<char>,
    pub max_participants: u32,
}

impl View for ConfigResp {
    type V = ConfigRespView;

    open spec fn view(&self) -> ConfigRespView {
        ConfigRespView {
            admin: self.admin@,
            default_denom: self.default_denom@,
            max_participants: self.max_participants,
        }
    }
}

#[derive(Clone, Debug, PartialEq, Eq)]
pub struct PoolResp {
    pub id: u64,
    pub creator: String,
    pub target: Coin,
    pub current: String,
    pub participants: Vec<String>,
    pub memo: Option<String>,
    pub created_at: u64,
    pub expiry_ts: Option<u64>,
    pub distributed: bool,
    pub cancelled: bool,
}

pub struct PoolRespView {
    pub id: u64,
    pub creator: Seq<char>,
    pub target: CoinView,
    pub current: Seq<char>,
    pub participants: Seq<Seq<char>>,
    pub memo: Option<Seq<char>>,
    pub created_at: u64,
    pub expiry_ts: Option<u64>,
    pub distributed: bool,
    pub cancelled: bool,
}

impl View for PoolResp {
    type V = PoolRespView;

    open spec fn view(&self) -> PoolRespView {
        PoolRespView {
            id: self.id,
            creator: self.creator@,
            target: self.target@,
            current: self.current@,
            participants: self.participants.deep_view(),
            memo: self.memo.deep_view(),
            created_at: self.created_at,
            expiry_ts: self.expiry_ts,
            distributed: self.distributed,
            cancelled: self.cancelled,
        }
    }
}

impl DeepView for PoolResp {
    type V = PoolRespView;

    open spec fn deep_view(&self) -> PoolRespView {
        self@
    }
}

#[derive(Clone, Debug, PartialEq, Eq)]
pub struct ContributionResp {
    pub contributor: String,
    pub amount: String,
    pub contributed_at: u64,
}

pub struct ContributionRespView {
    pub contributor: Seq<char>,
    pub amount: Seq<char>,
    pub contributed_at: u64,
}

impl View for ContributionResp {
    type V = ContributionRespView;

    open spec fn view(&self) -> ContributionRespView {
        ContributionRespView {
            contributor: self.contributor@,
            amount: self.amount@,
            contributed_at: self.contributed_at,
        }
    }
}

impl DeepView for ContributionResp {
    type V = ContributionRespView;

    open spec fn deep_view(&self) -> ContributionRespView {
        self@
    }
}

#[derive(Clone, Debug, PartialEq, Eq)]
pub struct Config {
    pub admin: String,
    pub default_denom: String,
    pub max_participants: u32,
}

/// One contribution pool: value gathered toward a target, settled by
/// distribution to the creator or cancellation with refunds.
#[derive(Clone, Debug, PartialEq, Eq)]
pub struct Pool {
    pub id: u64,
    pub creator: String,
    pub target: Coin,
    pub current: u128,
    pub participants: Vec<String>,
    pub memo: Option<String>,
    pub created_at: u64,
    pub expiry_ts: Option<u64>,
    pub distributed: bool,
    pub cancelled: bool,
}

/// One account's latest contribution to a pool.
#[derive(Clone, Debug, PartialEq, Eq)]
pub struct Contribution {
    pub contributor: String,
    pub amount: u128,
    pub contributed_at: u64,
}

/// One row of the contribution ledger, keyed by pool and contributor.
#[derive(Clone, Debug, PartialEq, Eq)]
pub struct ContributionEntry {
    pub pool_id: u64,
    pub contribution: Contribution,
}

/// The typed answer of one query dispatch.
#[derive(Clone, Debug, PartialEq, Eq)]
pub enum QueryAnswer {
    Config(ConfigResp),
    Pool(PoolResp),
    Contributions(Vec<ContributionResp>),
    Pools(Vec<PoolResp>),
}

#[derive(Clone, Debug, PartialEq, Eq)]
pub enum ContractError {
    Std(String),
    Unauthorized,
    PoolNotFound,
    PoolAlreadyDistributed,
    PoolAlreadyCancelled,
    PoolExpired,
    PoolNotExpired,
    InvalidContribution,
    PoolFull,
    TargetReached,
    NoContributions,
    InvalidPoolState,
}

// ---------------------------------------------------------------------
// Events.
// ---------------------------------------------------------------------
pub open spec fn spec_evt_create_pool(
    id: u64,
    creator: Seq<char>,
    target: u128,
    denom: Seq<char>,
    memo: Option<Seq<char>>,
) -> EventView {
    EventView {
        name: "seimoney.create_pool"@,
        attributes: {
            let base = seq![
                ("id"@, dec_of(id as nat)),
                ("creator"@, creator),
                ("target_amount"@, dec_of(target as nat)),
                ("target_denom"@, denom),
            ];
            match memo {
                Some(text) => base.push(("memo"@, text)),
                None => base,
            }
        },
    }
}

pub fn evt_create_pool(id: u64, creator: &str, target: &Coin, memo: &Option<String>) -> (r: Event)
    ensures
        r@ == spec_evt_create_pool(id, creator@, target.amount, target.denom@, memo.deep_view()),
{
    let mut event = Event::new("seimoney.create_pool")
        .add_attribute("id", u64_to_dec(id))
        .add_attribute("creator", creator.to_owned())
        .add_attribute("target_amount", u128_to_dec(target.amount))
        .add_attribute("target_denom", target.denom.clone());
    if let Some(text) = memo {
        event = event.add_attribute("memo", text.clone());
    }
    proof {
        assert(event@.attributes =~= spec_evt_create_pool(
            id,
            creator@,
            target.amount,
            target.denom@,
            memo.deep_view(),
        ).attributes);
    }
    event
}

pub open spec fn spec_evt_contribute(
    pool_id: u64,
    contributor: Seq<char>,
    amount: u128,
    denom: Seq<char>,
) -> EventView {
    EventView {
        name: "seimoney.contribute"@,
        attributes: seq![
            ("pool_id"@, dec_of(pool_id as nat)),
            ("contributor"@, contributor),
            ("amount"@, dec_of(amount as nat)),
            ("denom"@, denom),
        ],
    }
}

pub fn evt_contribute(pool_id: u64, contributor: &str, amount: &u128, denom: &str) -> (r: Event)
    ensures
        r@ == spec_evt_contribute(pool_id, contributor@, *amount, denom@),
{
    let r = Event::new("seimoney.contribute")
        .add_attribute("pool_id", u64_to_dec(pool_id))
        .add_attribute("contributor", contributor.to_owned())
        .add_attribute("amount", u128_to_dec(*amount))
        .add_attribute("denom", denom.to_owned());
    proof {
        assert(r@.attributes =~= spec_evt_contribute(
            pool_id,
            contributor@,
            *amount,
            denom@,
        ).attributes);
    }
    r
}

pub open spec fn spec_evt_distribute(
    pool_id: u64,
    creator: Seq<char>,
    total: u128,
    denom: Seq<char>,
) -> EventView {
    EventView {
        name: "seimoney.distribute"@,
        attributes: seq![
            ("pool_id"@, dec_of(pool_id as nat)),
            ("creator"@, creator),
            ("total_amount"@, dec_of(total as nat)),
            ("denom"@, denom),
        ],
    }
}

pub fn evt_distribute(pool_id: u64, creator: &str, total_amount: &u128, denom: &str) -> (r: Event)
    ensures
        r@ == spec_evt_distribute(pool_id, creator@, *total_amount, denom@),
{
    let r = Event::new("seimoney.distribute")
        .add_attribute("pool_id", u64_to_dec(pool_id))
        .add_attribute("creator", creator.to_owned())
        .add_attribute("total_amount", u128_to_dec(*total_amount))
        .add_attribute("denom", denom.to_owned());
    proof {
        assert(r@.attributes =~= spec_evt_distribute(
            pool_id,
            creator@,
            *total_amount,
            denom@,
        ).attributes);
    }
    r
}

pub open spec fn spec_evt_cancel_pool(pool_id: u64, creator: Seq<char>) -> EventView {
    EventView {
        name: "seimoney.cancel_pool"@,
        attributes: seq![("pool_id"@, dec_of(pool_id as nat)), ("creator"@, creator)],
    }
}

pub fn evt_cancel_pool(pool_id: u64, creator: &str) -> (r: Event)
    ensures
        r@ == spec_evt_cancel_pool(pool_id, creator@),
{
    let r = Event::new("seimoney.cancel_pool")
        .add_attribute("pool_id", u64_to_dec(pool_id))
        .add_attribute("creator", creator.to_owned());
    proof {
        assert(r@.attributes =~= spec_evt_cancel_pool(pool_id, creator@).attributes);
    }
    r
}

pub open spec fn spec_evt_refund_contribution(
    pool_id: u64,
    contributor: Seq<char>,
    amount: u128,
    denom: Seq<char>,
) -> EventView {
    EventView {
        name: "seimoney.refund_contribution"@,
        attributes: seq![
            ("pool_id"@, dec_of(pool_id as nat)),
            ("contributor"@, contributor),
            ("amount"@, dec_of(amount as nat)),
            ("denom"@, denom),
        ],
    }
}

pub fn evt_refund_contribution(pool_id: u64, contributor: &str, amount: &u128, denom: &str) -> (r:
    Event)
    ensures
        r@ == spec_evt_refund_contribution(pool_id, contributor@, *amount, denom@),
{
    let r = Event::new("seimoney.refund_contribution")
        .add_attribute("pool_id", u64_to_dec(pool_id))
        .add_attribute("contributor", contributor.to_owned())
        .add_attribute("amount", u128_to_dec(*amount))
        .add_attribute("denom", denom.to_owned());
    proof {
        assert(r@.attributes =~= spec_evt_refund_contribution(
            pool_id,
            contributor@,
            *amount,
            denom@,
        ).attributes);
    }
    r
}

// ---------------------------------------------------------------------
// The engine.
// ---------------------------------------------------------------------
/// The whole persisted state of the contribution-pool component.
pub struct GroupsEngine {
    pub config: Config,
    pub next_pool_id: u64,
    pub pools: Vec<Pool>,
    pub contributions: Vec<ContributionEntry>,
}

pub open spec fn pools_sorted(ps: Seq<Pool>) -> bool {
    forall|i: int, j: int| 0 <= i < j < ps.len() ==> #[trigger] ps[i].id < #[trigger] ps[j].id
}

pub open spec fn pool_ids_below(ps: Seq<Pool>, next: u64) -> bool {
    forall|i: int| 0 <= i < ps.len() ==> (#[trigger] ps[i]).id < next
}

pub open spec fn contribution_keys_unique(cs: Seq<ContributionEntry>) -> bool {
    forall|i: int, j: int|
        0 <= i < j < cs.len() ==> !((#[trigger] cs[i]).pool_id == (#[trigger] cs[j]).pool_id
            && cs[i].contribution.contributor@ == cs[j].contribution.contributor@)
}

impl GroupsEngine {
    /// The engine invariant: established at instantiation and preserved
    /// by every command.
    pub open spec fn wf(self) -> bool {
        &&& pools_sorted(self.pools@)
        &&& pool_ids_below(self.pools@, self.next_pool_id)
        &&& contribution_keys_unique(self.contributions@)
    }

    pub open spec fn has_pool(self, id: u64) -> bool {
        exists|i: int| 0 <= i < self.pools@.len() && (#[trigger] self.pools@[i]).id == id
    }

    pub open spec fn pool_at(self, id: u64) -> Pool {
        self.pools@[pool_idx(self.pools@, id)]
    }
}

pub open spec fn pool_idx(ps: Seq<Pool>, id: u64) -> int {
    choose|i: int| 0 <= i < ps.len() && (#[trigger] ps[i]).id == id
}

proof fn lemma_pool_idx(ps: Seq<Pool>, i: int)
    requires
        pools_sorted(ps),
        0 <= i < ps.len(),
    ensures
        pool_idx(ps, ps[i].id) == i,
{
    let id = ps[i].id;
    assert(0 <= i < ps.len() && ps[i].id == id);
    let j = pool_idx(ps, id);
    if j < i {
        assert(ps[j].id < ps[i].id);
    } else if i < j {
        assert(ps[i].id < ps[j].id);
    }
}

fn find_pool(ps: &Vec<Pool>, id: u64) -> (r: Option<usize>)
    ensures
        match r {
            Some(i) => 0 <= i < ps@.len() && ps@[i as int].id == id,
            None => forall|i: int| 0 <= i < ps@.len() ==> (#[trigger] ps@[i]).id != id,
        },
{
    let mut i: usize = 0;
    while i < ps.len()
        invariant
            0 <= i <= ps@.len(),
            forall|j: int| 0 <= j < i ==> (#[trigger] ps@[j]).id != id,
        decreases ps@.len() - i,
    {
        if ps[i].id == id {
            return Some(i);
        }
        i = i + 1;
    }
    None
}

pub open spec fn has_crow(cs: Seq<ContributionEntry>, pool: u64, addr: Seq<char>) -> bool {
    exists|i: int|
        0 <= i < cs.len() && (#[trigger] cs[i]).pool_id == pool && cs[i].contribution.contributor@
            == addr
}

pub open spec fn crow_idx(cs: Seq<ContributionEntry>, pool: u64, addr: Seq<char>) -> int {
    choose|i: int|
        0 <= i < cs.len() && (#[trigger] cs[i]).pool_id == pool && cs[i].contribution.contributor@
            == addr
}

fn find_crow(cs: &Vec<ContributionEntry>, pool: u64, addr: &str) -> (r: Option<usize>)
    ensures
        match r {
            Some(i) => 0 <= i < cs@.len() && cs@[i as int].pool_id == pool
                && cs@[i as int].contribution.contributor@ == addr@,
            None => forall|i: int|
                0 <= i < cs@.len() ==> !((#[trigger] cs@[i]).pool_id == pool
                    && cs@[i].contribution.contributor@ == addr@),
        },
{
    let mut i: usize = 0;
    while i < cs.len()
        invariant
            0 <= i <= cs@.len(),
            forall|j: int|
                0 <= j < i ==> !((#[trigger] cs@[j]).pool_id == pool
                    && cs@[j].contribution.contributor@ == addr@),
        decreases cs@.len() - i,
    {
        if cs[i].pool_id == pool && str_eq(cs[i].contribution.contributor.as_str(), addr) {
            return Some(i);
        }
        i = i + 1;
    }
    None
}

/// The view of an execution result: the response abstracted, the error
/// kept.
pub open spec fn result_view(r: Result<Response, ContractError>) -> Result<
    ResponseView,
    ContractError,
> {
    match r {
        Ok(resp) => Ok(resp@),
        Err(e) => Err(e),
    }
}

impl GroupsEngine {
    /// Sets up an empty engine: the administrator (the sender unless
    /// named), the accepted denomination, and the participant cap (100
    /// unless named).
    pub fn instantiate(info: &MessageInfo, msg: InstantiateMsg) -> (r: (GroupsEngine, Response))
        ensures
            r.0.wf(),
            r.0.config.admin@ == match msg.admin {
                Some(a) => a@,
                None => info.sender@,
            },
            r.0.config.default_denom@ == msg.default_denom@,
            r.0.config.max_participants == msg.max_participants.unwrap_or(100),
            r.0.next_pool_id == 1,
            r.0.pools@.len() == 0,
            r.0.contributions@.len() == 0,
            r.1@.messages.len() == 0,
            r.1@.events.len() == 0,
            r.1@.attributes == seq![("action"@, "instantiate"@)],
    {
        let admin = match msg.admin {
            Some(a) => a,
            None => info.sender.clone(),
        };
        let max_participants = match msg.max_participants {
            Some(m) => m,
            None => 100,
        };
        let engine = GroupsEngine {
            config: Config { admin, default_denom: msg.default_denom, max_participants },
            next_pool_id: 1,
            pools: Vec::new(),
            contributions: Vec::new(),
        };
        let resp = Response::new().add_attribute("action", "instantiate");
        (engine, resp)
    }
}

/// Which failure, if any, creating a pool meets.
pub open spec fn create_pool_check(
    pre: GroupsEngine,
    target: Coin,
    expiry_ts: Option<u64>,
    now: u64,
) -> Option<ContractError> {
    if target.denom@ != pre.config.default_denom@ {
        Some(ContractError::InvalidContribution)
    } else if target.amount == 0 {
        Some(ContractError::InvalidContribution)
    } else if expiry_ts is Some && expiry_ts->0 <= now {
        Some(ContractError::PoolExpired)
    } else {
        None
    }
}

/// Everything creating a pool does.
pub open spec fn create_pool_rel(
    pre: GroupsEngine,
    post: GroupsEngine,
    now: u64,
    sender: Seq<char>,
    target: Coin,
    memo: Option<String>,
    expiry_ts: Option<u64>,
    r: Result<ResponseView, ContractError>,
) -> bool {
    &&& post.config == pre.config
    &&& post.contributions == pre.contributions
    &&& match create_pool_check(pre, target, expiry_ts, now) {
        Some(e) => r == Err::<ResponseView, ContractError>(e) && post == pre,
        None => {
            &&& post.next_pool_id == pre.next_pool_id + 1
            &&& post.pools@.len() == pre.pools@.len() + 1
            &&& post.pools@.subrange(0, pre.pools@.len() as int) == pre.pools@
            &&& ({
                let p = post.pools@.last();
                &&& p.id == pre.next_pool_id
                &&& p.creator@ == sender
                &&& p.target == target
                &&& p.current == 0
                &&& p.participants@.len() == 0
                &&& p.memo == memo
                &&& p.created_at == now
                &&& p.expiry_ts == expiry_ts
                &&& !p.distributed
                &&& !p.cancelled
            })
            &&& r == Ok::<ResponseView, ContractError>(
                ResponseView {
                    messages: Seq::empty(),
                    attributes: seq![("action"@, "create_pool"@)],
                    events: seq![
                        spec_evt_create_pool(
                            pre.next_pool_id,
                            sender,
                            target.amount,
                            target.denom@,
                            memo.deep_view(),
                        ),
                    ],
                },
            )
        },
    }
}

/// Which failure, if any, a contribution meets, in the order the
/// checks run. An arithmetic overflow fails the command rather than
/// wrap.
pub open spec fn contribute_check(
    pre: GroupsEngine,
    pool_id: u64,
    amount: Coin,
    now: u64,
) -> Option<ContractError> {
    if !pre.has_pool(pool_id) {
        Some(ContractError::PoolNotFound)
    } else {
        let p = pre.pool_at(pool_id);
        if p.distributed {
            Some(ContractError::PoolAlreadyDistributed)
        } else if p.cancelled {
            Some(ContractError::PoolAlreadyCancelled)
        } else if p.expiry_ts is Some && p.expiry_ts->0 <= now {
            Some(ContractError::PoolExpired)
        } else if amount.denom@ != pre.config.default_denom@ {
            Some(ContractError::InvalidContribution)
        } else if amount.amount == 0 {
            Some(ContractError::InvalidContribution)
        } else if p.current >= p.target.amount {
            Some(ContractError::TargetReached)
        } else if p.participants@.len() >= pre.config.max_participants {
            Some(ContractError::PoolFull)
        } else if p.current + amount.amount > u128::MAX {
            Some(ContractError::InvalidContribution)
        } else {
            None
        }
    }
}

/// The contribution row is overwritten with this contribution, or
/// created when absent.
pub open spec fn contribution_recorded(
    pre: Seq<ContributionEntry>,
    post: Seq<ContributionEntry>,
    pool: u64,
    addr: Seq<char>,
    amount: u128,
    now: u64,
) -> bool {
    if has_crow(pre, pool, addr) {
        let i = crow_idx(pre, pool, addr);
        &&& post.len() == pre.len()
        &&& forall|k: int| 0 <= k < pre.len() && k != i ==> post[k] == pre[k]
        &&& post[i].pool_id == pool
        &&& post[i].contribution.contributor@ == addr
        &&& post[i].contribution.amount == amount
        &&& post[i].contribution.contributed_at == now
    } else {
        &&& post.len() == pre.len() + 1
        &&& post.subrange(0, pre.len() as int) == pre
        &&& post.last().pool_id == pool
        &&& post.last().contribution.contributor@ == addr
        &&& post.last().contribution.amount == amount
        &&& post.last().contribution.contributed_at == now
    }
}

/// Everything a contribution does: the pool's running total grows,
/// the contributor joins the participants once, and the contributor's
/// row records this contribution.
pub open spec fn contribute_rel(
    pre: GroupsEngine,
    post: GroupsEngine,
    now: u64,
    sender: Seq<char>,
    pool_id: u64,
    amount: Coin,
    r: Result<ResponseView, ContractError>,
) -> bool {
    &&& post.config == pre.config
    &&& post.next_pool_id == pre.next_pool_id
    &&& match contribute_check(pre, pool_id, amount, now) {
        Some(e) => r == Err::<ResponseView, ContractError>(e) && post == pre,
        None => {
            let p = pre.pool_at(pool_id);
            let idx = pool_idx(pre.pools@, pool_id);
            &&& post.pools@.len() == pre.pools@.len()
            &&& forall|k: int|
                0 <= k < pre.pools@.len() && k != idx ==> post.pools@[k] == pre.pools@[k]
            &&& ({
                let p2 = post.pools@[idx];
                &&& p2.id == p.id
                &&& p2.creator == p.creator
                &&& p2.target == p.target
                &&& p2.current == p.current + amount.amount
                &&& (if seq_has_str(p.participants@, sender) {
                    p2.participants == p.participants
                } else {
                    p2.participants@.len() == p.participants@.len() + 1
                        && p2.participants@.subrange(0, p.participants@.len() as int)
                        == p.participants@ && p2.participants@.last()@ == sender
                })
                &&& p2.memo == p.memo
                &&& p2.created_at == p.created_at
                &&& p2.expiry_ts == p.expiry_ts
                &&& p2.distributed == p.distributed
                &&& p2.cancelled == p.cancelled
            })
            &&& contribution_recorded(
                pre.contributions@,
                post.contributions@,
                pool_id,
                sender,
                amount.amount,
                now,
            )
            &&& r == Ok::<ResponseView, ContractError>(
                ResponseView {
                    messages: Seq::empty(),
                    attributes: seq![("action"@, "contribute"@)],
                    events: seq![
                        spec_evt_contribute(pool_id, sender, amount.amount, amount.denom@),
                    ],
                },
            )
        },
    }
}

impl GroupsEngine {
    /// Opens a pool with a positive target in the configured
    /// denomination and a deadline (if any) still ahead.
    pub fn exec_create_pool(
        &mut self,
        env: &Env,
        info: &MessageInfo,
        target: Coin,
        max_participants: Option<u32>,
        memo: Option<String>,
        expiry_ts: Option<u64>,
    ) -> (r: Result<Response, ContractError>)
        requires
            old(self).wf(),
            old(self).next_pool_id < u64::MAX,
        ensures
            final(self).wf(),
            create_pool_rel(
                *old(self),
                *final(self),
                env.block_time.spec_seconds(),
                info.sender@,
                target,
                memo,
                expiry_ts,
                result_view(r),
            ),
    {
        if !str_eq(target.denom.as_str(), self.config.default_denom.as_str()) {
            return Err(ContractError::InvalidContribution);
        }
        if target.amount == 0 {
            return Err(ContractError::InvalidContribution);
        }
        if let Some(ts) = expiry_ts {
            if ts <= env.block_time.seconds() {
                return Err(ContractError::PoolExpired);
            }
        }
        let id = self.next_pool_id;
        let event = evt_create_pool(id, info.sender.as_str(), &target, &memo);
        let pool = Pool {
            id,
            creator: info.sender.clone(),
            target,
            current: 0,
            participants: Vec::new(),
            memo,
            created_at: env.block_time.seconds(),
            expiry_ts,
            distributed: false,
            cancelled: false,
        };
        self.pools.push(pool);
        self.next_pool_id = id + 1;
        let resp = Response::new().add_event(event).add_attribute("action", "create_pool");
        proof {
            assert(self.pools@.subrange(0, old(self).pools@.len() as int) =~= old(self).pools@);
            assert(resp@.messages =~= Seq::<BankSendView>::empty());
            assert(resp@.attributes =~= seq![("action"@, "create_pool"@)]);
            assert(resp@.events =~= seq![event@]);
        }
        Ok(resp)
    }

    /// Contributes to an open, unexpired pool that has room and has
    /// not reached its target. A repeat contributor's row is
    /// overwritten with the latest contribution; the running total
    /// always grows by the full amount.
    pub fn exec_contribute(
        &mut self,
        env: &Env,
        info: &MessageInfo,
        pool_id: u64,
        amount: Coin,
    ) -> (r: Result<Response, ContractError>)
        requires
            old(self).wf(),
        ensures
            final(self).wf(),
            contribute_rel(
                *old(self),
                *final(self),
                env.block_time.spec_seconds(),
                info.sender@,
                pool_id,
                amount,
                result_view(r),
            ),
    {
        let i = match find_pool(&self.pools, pool_id) {
            Some(i) => i,
            None => {
                return Err(ContractError::PoolNotFound);
            },
        };
        proof {
            lemma_pool_idx(self.pools@, i as int);
        }
        if self.pools[i].distributed {
            return Err(ContractError::PoolAlreadyDistributed);
        }
        if self.pools[i].cancelled {
            return Err(ContractError::PoolAlreadyCancelled);
        }
        if let Some(ts) = self.pools[i].expiry_ts {
            if ts <= env.block_time.seconds() {
                return Err(ContractError::PoolExpired);
            }
        }
        if !str_eq(amount.denom.as_str(), self.config.default_denom.as_str()) {
            return Err(ContractError::InvalidContribution);
        }
        if amount.amount == 0 {
            return Err(ContractError::InvalidContribution);
        }
        if self.pools[i].current >= self.pools[i].target.amount {
            return Err(ContractError::TargetReached);
        }
        if self.pools[i].participants.len() >= self.config.max_participants as usize {
            return Err(ContractError::PoolFull);
        }
        let new_current = match self.pools[i].current.checked_add(amount.amount) {
            Some(v) => v,
            None => {
                return Err(ContractError::InvalidContribution);
            },
        };
        let ghost pre_rows = self.contributions@;
        let contribution = Contribution {
            contributor: info.sender.clone(),
            amount: amount.amount,
            contributed_at: env.block_time.seconds(),
        };
        match find_crow(&self.contributions, pool_id, info.sender.as_str()) {
            Some(j) => {
                proof {
                    let w = crow_idx(pre_rows, pool_id, info.sender@);
                    assert(pre_rows[w].pool_id == pool_id && pre_rows[w].contribution.contributor@
                        == info.sender@);
                    assert(w == j) by {
                        if w != j as int {
                            assert(!contribution_keys_unique(pre_rows));
                        }
                    }
                }
                let mut row = self.contributions.remove(j);
                row.contribution = contribution;
                self.contributions.insert(j, row);
            },
            None => {
                self.contributions.push(ContributionEntry { pool_id, contribution });
                proof {
                    assert(self.contributions@.subrange(0, pre_rows.len() as int) =~= pre_rows);
                }
            },
        }
        let ghost p = self.pools@[i as int];
        let mut pool = self.pools.remove(i);
        if !contains_str(&pool.participants, info.sender.as_str()) {
            pool.participants.push(info.sender.clone());
        }
        pool.current = new_current;
        self.pools.insert(i, pool);
        proof {
            let sender = info.sender@;
            assert forall|k: int| 0 <= k < self.pools@.len() implies (#[trigger] self.pools@[k]).id
                == old(self).pools@[k].id by {}
            if !seq_has_str(p.participants@, sender) {
                assert(self.pools@[i as int].participants@.subrange(
                    0,
                    p.participants@.len() as int,
                ) =~= p.participants@);
            }
            assert(contribution_keys_unique(self.contributions@)) by {
                assert forall|x: int, y: int| 0 <= x < y < self.contributions@.len() implies !((
                #[trigger] self.contributions@[x]).pool_id
                    == (#[trigger] self.contributions@[y]).pool_id
                    && self.contributions@[x].contribution.contributor@
                    == self.contributions@[y].contribution.contributor@) by {
                    if y < pre_rows.len() {
                        assert(!(pre_rows[x].pool_id == pre_rows[y].pool_id
                            && pre_rows[x].contribution.contributor@
                            == pre_rows[y].contribution.contributor@));
                    } else if !has_crow(pre_rows, pool_id, sender) {
                        assert(!(pre_rows[x].pool_id == pool_id
                            && pre_rows[x].contribution.contributor@ == sender));
                    }
                }
            }
        }
        let event = evt_contribute(
            pool_id,
            info.sender.as_str(),
            &amount.amount,
            amount.denom.as_str(),
        );
        let resp = Response::new().add_event(event).add_attribute("action", "contribute");
        proof {
            assert(resp@.messages =~= Seq::<BankSendView>::empty());
            assert(resp@.attributes =~= seq![("action"@, "contribute"@)]);
            assert(resp@.events =~= seq![event@]);
        }
        Ok(resp)
    }
}

/// Everything a distribution does: once the target is reached the
/// creator collects the gathered value and the pool is settled.
pub open spec fn distribute_rel(
    pre: GroupsEngine,
    post: GroupsEngine,
    sender: Seq<char>,
    pool_id: u64,
    r: Result<ResponseView, ContractError>,
) -> bool {
    &&& post.config == pre.config
    &&& post.next_pool_id == pre.next_pool_id
    &&& post.contributions == pre.contributions
    &&& if !pre.has_pool(pool_id) {
        r == Err::<ResponseView, ContractError>(ContractError::PoolNotFound) && post == pre
    } else {
        let p = pre.pool_at(pool_id);
        let idx = pool_idx(pre.pools@, pool_id);
        if sender != p.creator@ {
            r == Err::<ResponseView, ContractError>(ContractError::Unauthorized) && post == pre
        } else if p.distributed {
            r == Err::<ResponseView, ContractError>(ContractError::PoolAlreadyDistributed)
                && post == pre
        } else if p.cancelled {
            r == Err::<ResponseView, ContractError>(ContractError::PoolAlreadyCancelled) && post
                == pre
        } else if p.current < p.target.amount {
            r == Err::<ResponseView, ContractError>(ContractError::InvalidPoolState) && post
                == pre
        } else {
            &&& post.pools@ == pre.pools@.update(idx, Pool { distributed: true, ..p })
            &&& r == Ok::<ResponseView, ContractError>(
                ResponseView {
                    messages: seq![
                        BankSendView {
                            to_address: p.creator@,
                            amount: seq![
                                CoinView { denom: p.target.denom@, amount: p.current },
                            ],
                        },
                    ],
                    attributes: seq![("action"@, "distribute"@)],
                    events: seq![
                        spec_evt_distribute(pool_id, p.creator@, p.current, p.target.denom@),
                    ],
                },
            )
        }
    }
}

/// Everything a cancellation does: after the deadline the creator may
/// cancel an unsettled pool, opening it for refunds.
pub open spec fn cancel_pool_rel(
    pre: GroupsEngine,
    post: GroupsEngine,
    now: u64,
    sender: Seq<char>,
    pool_id: u64,
    r: Result<ResponseView, ContractError>,
) -> bool {
    &&& post.config == pre.config
    &&& post.next_pool_id == pre.next_pool_id
    &&& post.contributions == pre.contributions
    &&& if !pre.has_pool(pool_id) {
        r == Err::<ResponseView, ContractError>(ContractError::PoolNotFound) && post == pre
    } else {
        let p = pre.pool_at(pool_id);
        let idx = pool_idx(pre.pools@, pool_id);
        if sender != p.creator@ {
            r == Err::<ResponseView, ContractError>(ContractError::Unauthorized) && post == pre
        } else if p.distributed {
            r == Err::<ResponseView, ContractError>(ContractError::PoolAlreadyDistributed)
                && post == pre
        } else if p.cancelled {
            r == Err::<ResponseView, ContractError>(ContractError::PoolAlreadyCancelled) && post
                == pre
        } else if p.expiry_ts is Some && p.expiry_ts->0 > now {
            r == Err::<ResponseView, ContractError>(ContractError::PoolNotExpired) && post
                == pre
        } else {
            &&& post.pools@ == pre.pools@.update(idx, Pool { cancelled: true, ..p })
            &&& r == Ok::<ResponseView, ContractError>(
                ResponseView {
                    messages: Seq::empty(),
                    attributes: seq![("action"@, "cancel_pool"@)],
                    events: seq![spec_evt_cancel_pool(pool_id, p.creator@)],
                },
            )
        }
    }
}

/// Everything a contribution refund does: once the pool is cancelled
/// each contributor takes back exactly the amount of their recorded
/// row, and the row disappears.
pub open spec fn refund_contribution_rel(
    pre: GroupsEngine,
    post: GroupsEngine,
    sender: Seq<char>,
    pool_id: u64,
    r: Result<ResponseView, ContractError>,
) -> bool {
    &&& post.config == pre.config
    &&& post.next_pool_id == pre.next_pool_id
    &&& post.pools == pre.pools
    &&& if !pre.has_pool(pool_id) {
        r == Err::<ResponseView, ContractError>(ContractError::PoolNotFound) && post == pre
    } else {
        let p = pre.pool_at(pool_id);
        if !p.cancelled {
            r == Err::<ResponseView, ContractError>(ContractError::InvalidPoolState) && post
                == pre
        } else if !has_crow(pre.contributions@, pool_id, sender) {
            r == Err::<ResponseView, ContractError>(ContractError::InvalidContribution) && post
                == pre
        } else {
            let i = crow_idx(pre.contributions@, pool_id, sender);
            let c = pre.contributions@[i].contribution;
            &&& post.contributions@ == pre.contributions@.remove(i)
            &&& r == Ok::<ResponseView, ContractError>(
                ResponseView {
                    messages: seq![
                        BankSendView {
                            to_address: sender,
                            amount: seq![
                                CoinView { denom: p.target.denom@, amount: c.amount },
                            ],
                        },
                    ],
                    attributes: seq![("action"@, "refund_contribution"@)],
                    events: seq![
                        spec_evt_refund_contribution(
                            pool_id,
                            sender,
                            c.amount,
                            p.target.denom@,
                        ),
                    ],
                },
            )
        }
    }
}

impl GroupsEngine {
    /// Sends the gathered value to the creator once the target is
    /// reached, settling the pool.
    pub fn exec_distribute(&mut self, info: &MessageInfo, pool_id: u64) -> (r: Result<
        Response,
        ContractError,
    >)
        requires
            old(self).wf(),
        ensures
            final(self).wf(),
            distribute_rel(*old(self), *final(self), info.sender@, pool_id, result_view(r)),
    {
        let i = match find_pool(&self.pools, pool_id) {
            Some(i) => i,
            None => {
                return Err(ContractError::PoolNotFound);
            },
        };
        proof {
            lemma_pool_idx(self.pools@, i as int);
        }
        if !str_eq(info.sender.as_str(), self.pools[i].creator.as_str()) {
            return Err(ContractError::Unauthorized);
        }
        if self.pools[i].distributed {
            return Err(ContractError::PoolAlreadyDistributed);
        }
        if self.pools[i].cancelled {
            return Err(ContractError::PoolAlreadyCancelled);
        }
        if self.pools[i].current < self.pools[i].target.amount {
            return Err(ContractError::InvalidPoolState);
        }
        let ghost p = self.pools@[i as int];
        let mut pool = self.pools.remove(i);
        pool.distributed = true;
        let creator = pool.creator.clone();
        let total = pool.current;
        let coin = Coin { denom: pool.target.denom.clone(), amount: total };
        self.pools.insert(i, pool);
        proof {
            assert(self.pools@ =~= old(self).pools@.update(
                i as int,
                Pool { distributed: true, ..p },
            ));
            assert forall|k: int| 0 <= k < self.pools@.len() implies (#[trigger] self.pools@[k]).id
                == old(self).pools@[k].id by {}
        }
        let event = evt_distribute(pool_id, creator.as_str(), &total, coin.denom.as_str());
        let mut coins: Vec<Coin> = Vec::new();
        coins.push(coin);
        let bank = BankSend { to_address: creator, amount: coins };
        proof {
            assert(bank@.amount =~= seq![CoinView { denom: p.target.denom@, amount: p.current }]);
        }
        let resp = Response::new().add_message(bank).add_event(event).add_attribute(
            "action",
            "distribute",
        );
        proof {
            assert(resp@.messages =~= seq![bank@]);
            assert(resp@.attributes =~= seq![("action"@, "distribute"@)]);
            assert(resp@.events =~= seq![event@]);
        }
        Ok(resp)
    }

    /// Cancels an unsettled pool once its deadline has passed (a pool
    /// without a deadline may be cancelled at once), opening it for
    /// refunds.
    pub fn exec_cancel_pool(&mut self, env: &Env, info: &MessageInfo, pool_id: u64) -> (r: Result<
        Response,
        ContractError,
    >)
        requires
            old(self).wf(),
        ensures
            final(self).wf(),
            cancel_pool_rel(
                *old(self),
                *final(self),
                env.block_time.spec_seconds(),
                info.sender@,
                pool_id,
                result_view(r),
            ),
    {
        let i = match find_pool(&self.pools, pool_id) {
            Some(i) => i,
            None => {
                return Err(ContractError::PoolNotFound);
            },
        };
        proof {
            lemma_pool_idx(self.pools@, i as int);
        }
        if !str_eq(info.sender.as_str(), self.pools[i].creator.as_str()) {
            return Err(ContractError::Unauthorized);
        }
        if self.pools[i].distributed {
            return Err(ContractError::PoolAlreadyDistributed);
        }
        if self.pools[i].cancelled {
            return Err(ContractError::PoolAlreadyCancelled);
        }
        if let Some(ts) = self.pools[i].expiry_ts {
            if ts > env.block_time.seconds() {
                return Err(ContractError::PoolNotExpired);
            }
        }
        let ghost p = self.pools@[i as int];
        let mut pool = self.pools.remove(i);
        pool.cancelled = true;
        let creator = pool.creator.clone();
        self.pools.insert(i, pool);
        proof {
            assert(self.pools@ =~= old(self).pools@.update(
                i as int,
                Pool { cancelled: true, ..p },
            ));
            assert forall|k: int| 0 <= k < self.pools@.len() implies (#[trigger] self.pools@[k]).id
                == old(self).pools@[k].id by {}
        }
        let event = evt_cancel_pool(pool_id, creator.as_str());
        let resp = Response::new().add_event(event).add_attribute("action", "cancel_pool");
        proof {
            assert(resp@.messages =~= Seq::<BankSendView>::empty());
            assert(resp@.attributes =~= seq![("action"@, "cancel_pool"@)]);
            assert(resp@.events =~= seq![event@]);
        }
        Ok(resp)
    }

    /// Refunds the caller's recorded contribution from a cancelled
    /// pool and removes the row.
    pub fn exec_refund_contribution(&mut self, info: &MessageInfo, pool_id: u64) -> (r: Result<
        Response,
        ContractError,
    >)
        requires
            old(self).wf(),
        ensures
            final(self).wf(),
            refund_contribution_rel(
                *old(self),
                *final(self),
                info.sender@,
                pool_id,
                result_view(r),
            ),
    {
        let i = match find_pool(&self.pools, pool_id) {
            Some(i) => i,
            None => {
                return Err(ContractError::PoolNotFound);
            },
        };
        proof {
            lemma_pool_idx(self.pools@, i as int);
        }
        if !self.pools[i].cancelled {
            return Err(ContractError::InvalidPoolState);
        }
        let j = match find_crow(&self.contributions, pool_id, info.sender.as_str()) {
            Some(j) => j,
            None => {
                return Err(ContractError::InvalidContribution);
            },
        };
        proof {
            let w = crow_idx(self.contributions@, pool_id, info.sender@);
            assert(self.contributions@[w].pool_id == pool_id
                && self.contributions@[w].contribution.contributor@ == info.sender@);
            assert(w == j) by {
                if w != j as int {
                    assert(!contribution_keys_unique(self.contributions@));
                }
            }
        }
        let ghost pre_rows = self.contributions@;
        let row = self.contributions.remove(j);
        let amount = row.contribution.amount;
        let coin = Coin { denom: self.pools[i].target.denom.clone(), amount };
        let event = evt_refund_contribution(
            pool_id,
            info.sender.as_str(),
            &amount,
            coin.denom.as_str(),
        );
        let mut coins: Vec<Coin> = Vec::new();
        coins.push(coin);
        let bank = BankSend { to_address: info.sender.clone(), amount: coins };
        proof {
            // Removing a row keeps the remaining keys unique.
            assert(contribution_keys_unique(self.contributions@)) by {
                assert forall|x: int, y: int| 0 <= x < y < self.contributions@.len() implies !((
                #[trigger] self.contributions@[x]).pool_id
                    == (#[trigger] self.contributions@[y]).pool_id
                    && self.contributions@[x].contribution.contributor@
                    == self.contributions@[y].contribution.contributor@) by {
                    let x0: int = if x < j as int {
                        x
                    } else {
                        x + 1
                    };
                    let y0: int = if y < j as int {
                        y
                    } else {
                        y + 1
                    };
                    assert(self.contributions@[x] == pre_rows[x0]);
                    assert(self.contributions@[y] == pre_rows[y0]);
                    assert(!(pre_rows[x0].pool_id == pre_rows[y0].pool_id
                        && pre_rows[x0].contribution.contributor@
                        == pre_rows[y0].contribution.contributor@));
                }
            }
            assert(bank@.amount =~= seq![
                CoinView {
                    denom: self.pools@[i as int].target.denom@,
                    amount: pre_rows[j as int].contribution.amount,
                },
            ]);
        }
        let resp = Response::new().add_message(bank).add_event(event).add_attribute(
            "action",
            "refund_contribution",
        );
        proof {
            assert(resp@.messages =~= seq![bank@]);
            assert(resp@.attributes =~= seq![("action"@, "refund_contribution"@)]);
            assert(resp@.events =~= seq![event@]);
        }
        Ok(resp)
    }

    /// One command dispatch: the engine's whole mutating interface.
    pub fn execute(&mut self, env: &Env, info: &MessageInfo, msg: ExecuteMsg) -> (r: Result<
        Response,
        ContractError,
    >)
        requires
            old(self).wf(),
            msg is CreatePool ==> old(self).next_pool_id < u64::MAX,
        ensures
            final(self).wf(),
            match msg {
                ExecuteMsg::CreatePool { target, max_participants, memo, expiry_ts } => create_pool_rel(
                    *old(self),
                    *final(self),
                    env.block_time.spec_seconds(),
                    info.sender@,
                    target,
                    memo,
                    expiry_ts,
                    result_view(r),
                ),
                ExecuteMsg::Contribute { pool_id, amount } => contribute_rel(
                    *old(self),
                    *final(self),
                    env.block_time.spec_seconds(),
                    info.sender@,
                    pool_id,
                    amount,
                    result_view(r),
                ),
                ExecuteMsg::Distribute { pool_id } => distribute_rel(
                    *old(self),
                    *final(self),
                    info.sender@,
                    pool_id,
                    result_view(r),
                ),
                ExecuteMsg::CancelPool { pool_id } => cancel_pool_rel(
                    *old(self),
                    *final(self),
                    env.block_time.spec_seconds(),
                    info.sender@,
                    pool_id,
                    result_view(r),
                ),
                ExecuteMsg::RefundContribution { pool_id } => refund_contribution_rel(
                    *old(self),
                    *final(self),
                    info.sender@,
                    pool_id,
                    result_view(r),
                ),
            },
    {
        match msg {
            ExecuteMsg::CreatePool { target, max_participants, memo, expiry_ts } => self
                .exec_create_pool(env, info, target, max_participants, memo, expiry_ts),
            ExecuteMsg::Contribute { pool_id, amount } => self.exec_contribute(
                env,
                info,
                pool_id,
                amount,
            ),
            ExecuteMsg::Distribute { pool_id } => self.exec_distribute(info, pool_id),
            ExecuteMsg::CancelPool { pool_id } => self.exec_cancel_pool(env, info, pool_id),
            ExecuteMsg::RefundContribution { pool_id } => self.exec_refund_contribution(
                info,
                pool_id,
            ),
        }
    }
}

// ---------------------------------------------------------------------
// Queries.
// ---------------------------------------------------------------------
/// The ghost shape of a pool answer.
pub open spec fn spec_pool_resp(p: Pool) -> PoolRespView {
    PoolRespView {
        id: p.id,
        creator: p.creator@,
        target: p.target@,
        current: dec_of(p.current as nat),
        participants: p.participants.deep_view(),
        memo: p.memo.deep_view(),
        created_at: p.created_at,
        expiry_ts: p.expiry_ts,
        distributed: p.distributed,
        cancelled: p.cancelled,
    }
}

fn pool_to_resp(p: &Pool) -> (r: PoolResp)
    ensures
        r@ == spec_pool_resp(*p),
{
    PoolResp {
        id: p.id,
        creator: p.creator.clone(),
        target: p.target.clone_coin(),
        current: u128_to_dec(p.current),
        participants: clone_string_vec(&p.participants),
        memo: clone_opt_string(&p.memo),
        created_at: p.created_at,
        expiry_ts: p.expiry_ts,
        distributed: p.distributed,
        cancelled: p.cancelled,
    }
}

/// The ghost shape of one contribution answer.
pub open spec fn spec_contribution_resp(c: Contribution) -> ContributionRespView {
    ContributionRespView {
        contributor: c.contributor@,
        amount: dec_of(c.amount as nat),
        contributed_at: c.contributed_at,
    }
}

/// Whether a row belongs on a contribution page: it belongs to the
/// pool and stands strictly after the cursor row in the ledger.
pub open spec fn crow_selected(
    cs: Seq<ContributionEntry>,
    j: int,
    pool: u64,
    start: Option<Seq<char>>,
) -> bool {
    &&& cs[j].pool_id == pool
    &&& match start {
        None => true,
        Some(a) => has_crow(cs, pool, a) && j > crow_idx(cs, pool, a),
    }
}

/// The pool's rows past the cursor, in ledger order, up to an index.
pub open spec fn crows_upto(
    cs: Seq<ContributionEntry>,
    pool: u64,
    start: Option<Seq<char>>,
    i: int,
) -> Seq<ContributionEntry>
    decreases i,
{
    if i <= 0 {
        Seq::empty()
    } else {
        crows_upto(cs, pool, start, i - 1) + if crow_selected(cs, i - 1, pool, start) {
            seq![cs[i - 1]]
        } else {
            Seq::empty()
        }
    }
}

/// The page of a contribution listing: the first `limit` (30 when
/// unnamed) of the pool's rows past the cursor. A cursor that names no
/// row of the pool yields an empty page.
pub open spec fn contributions_page(
    cs: Seq<ContributionEntry>,
    pool: u64,
    start: Option<Seq<char>>,
    limit: Option<u32>,
) -> Seq<ContributionRespView> {
    let sel = crows_upto(cs, pool, start, cs.len() as int);
    let lim: int = match limit {
        Some(l) => l as int,
        None => 30,
    };
    let n = if lim <= sel.len() {
        lim
    } else {
        sel.len() as int
    };
    Seq::new(n as nat, |j: int| spec_contribution_resp(sel[j].contribution))
}

impl GroupsEngine {
    /// The configuration, as a query answer.
    pub fn query_config(&self) -> (r: ConfigResp)
        ensures
            r@.admin == self.config.admin@,
            r@.default_denom == self.config.default_denom@,
            r@.max_participants == self.config.max_participants,
    {
        ConfigResp {
            admin: self.config.admin.clone(),
            default_denom: self.config.default_denom.clone(),
            max_participants: self.config.max_participants,
        }
    }

    /// One pool by id, or nothing when the id is unknown.
    pub fn get_pool(&self, id: u64) -> (r: Option<PoolResp>)
        requires
            self.wf(),
        ensures
            r is Some <==> self.has_pool(id),
            r is Some ==> r->0@ == spec_pool_resp(self.pool_at(id)),
    {
        match find_pool(&self.pools, id) {
            Some(i) => {
                proof {
                    lemma_pool_idx(self.pools@, i as int);
                }
                Some(pool_to_resp(&self.pools[i]))
            },
            None => None,
        }
    }

    /// A pool's contributions in ledger order past the cursor, capped
    /// at the limit (30 when unnamed).
    pub fn list_contributions(
        &self,
        pool_id: u64,
        start_after: Option<String>,
        limit: Option<u32>,
    ) -> (r: Vec<ContributionResp>)
        requires
            self.wf(),
        ensures
            r.deep_view() == contributions_page(
                self.contributions@,
                pool_id,
                start_after.deep_view(),
                limit,
            ),
    {
        let ghost start = start_after.deep_view();
        let lim: usize = match limit {
            Some(l) => l as usize,
            None => 30,
        };
        let mut out: Vec<ContributionResp> = Vec::new();
        let cursor: Option<usize> = match &start_after {
            Some(addr) => {
                match find_crow(&self.contributions, pool_id, addr.as_str()) {
                    Some(c) => {
                        proof {
                            let w = crow_idx(self.contributions@, pool_id, start->0);
                            assert(self.contributions@[w].pool_id == pool_id
                                && self.contributions@[w].contribution.contributor@ == start->0);
                            assert(w == c) by {
                                if w != c as int {
                                    assert(!contribution_keys_unique(self.contributions@));
                                }
                            }
                        }
                        Some(c)
                    },
                    None => {
                        proof {
                            assert(!has_crow(self.contributions@, pool_id, start->0));
                            let n = self.contributions@.len() as int;
                            assert forall|j: int| 0 <= j <= n implies crows_upto(
                                self.contributions@,
                                pool_id,
                                start,
                                j,
                            ) =~= Seq::<ContributionEntry>::empty() by {
                                lemma_crows_upto_empty(self.contributions@, pool_id, start, j);
                            }
                            assert(out.deep_view() =~= contributions_page(
                                self.contributions@,
                                pool_id,
                                start,
                                limit,
                            ));
                        }
                        return out;
                    },
                }
            },
            None => None,
        };
        let n = self.contributions.len();
        let mut i: usize = 0;
        while i < n
            invariant
                0 <= i <= n == self.contributions@.len(),
                self.wf(),
                lim == match limit {
                    Some(l) => l as int,
                    None => 30int,
                },
                match cursor {
                    Some(c) => 0 <= c < n && start is Some && has_crow(
                        self.contributions@,
                        pool_id,
                        start->0,
                    ) && c as int == crow_idx(self.contributions@, pool_id, start->0),
                    None => start is None,
                },
                out@.len() == ({
                    let sel = crows_upto(self.contributions@, pool_id, start, i as int);
                    if lim <= sel.len() {
                        lim as int
                    } else {
                        sel.len() as int
                    }
                }),
                forall|k: int|
                    0 <= k < out@.len() ==> (#[trigger] out@[k])@ == spec_contribution_resp(
                        crows_upto(self.contributions@, pool_id, start, i as int)[k].contribution,
                    ),
            decreases n - i,
        {
            let ghost sel = crows_upto(self.contributions@, pool_id, start, i as int);
            let row_match = self.contributions[i].pool_id == pool_id && (match cursor {
                Some(c) => i > c,
                None => true,
            });
            if row_match && out.len() < lim {
                let c = &self.contributions[i].contribution;
                out.push(
                    ContributionResp {
                        contributor: c.contributor.clone(),
                        amount: u128_to_dec(c.amount),
                        contributed_at: c.contributed_at,
                    },
                );
                proof {
                    let sel2 = crows_upto(self.contributions@, pool_id, start, i + 1);
                    assert(sel2 =~= sel + seq![self.contributions@[i as int]]);
                    assert(out@[out@.len() - 1]@ == spec_contribution_resp(
                        self.contributions@[i as int].contribution,
                    ));
                }
            } else {
                proof {
                    let sel2 = crows_upto(self.contributions@, pool_id, start, i + 1);
                    if crow_selected(self.contributions@, i as int, pool_id, start) {
                        assert(sel2 =~= sel + seq![self.contributions@[i as int]]);
                    } else {
                        assert(sel2 =~= sel);
                    }
                }
            }
            i = i + 1;
        }
        proof {
            let page = contributions_page(self.contributions@, pool_id, start, limit);
            assert(page.len() == out@.len());
            assert forall|k: int| 0 <= k < page.len() implies out.deep_view()[k] == page[k] by {
                assert(out.deep_view()[k] == out@[k].deep_view());
            }
            assert(out.deep_view() =~= page);
        }
        out
    }

    /// All pools in id order past the cursor, capped at the limit (30
    /// when unnamed).
    pub fn list_pools(&self, start_after: Option<u64>, limit: Option<u32>) -> (r: Vec<PoolResp>)
        requires
            self.wf(),
        ensures
            r.deep_view() == pools_page(self.pools@, start_after, limit),
    {
        let lim: usize = match limit {
            Some(l) => l as usize,
            None => 30,
        };
        let n = self.pools.len();
        let mut i: usize = 0;
        match start_after {
            Some(start) => {
                while i < n && self.pools[i].id <= start
                    invariant
                        0 <= i <= n == self.pools@.len(),
                        forall|k: int| 0 <= k < i ==> (#[trigger] self.pools@[k]).id <= start,
                    decreases n - i,
                {
                    i = i + 1;
                }
                proof {
                    lemma_pool_count_le_boundary(self.pools@, start, i as int);
                }
            },
            None => {
            },
        }
        let ghost s: int = match start_after {
            Some(c) => pool_count_le(self.pools@, c),
            None => 0,
        };
        let ghost page = pools_page(self.pools@, start_after, limit);
        let start_idx = i;
        let mut out: Vec<PoolResp> = Vec::new();
        while i < n && out.len() < lim
            invariant
                0 <= start_idx <= i <= n == self.pools@.len(),
                s == start_idx as int,
                s == match start_after {
                    Some(c) => pool_count_le(self.pools@, c),
                    None => 0int,
                },
                lim == match limit {
                    Some(l) => l as int,
                    None => 30int,
                },
                page == pools_page(self.pools@, start_after, limit),
                page.len() == if lim <= n - s {
                    lim as int
                } else {
                    n - s
                },
                out@.len() == i - start_idx,
                out@.len() <= lim,
                forall|k: int| 0 <= k < out@.len() ==> (#[trigger] out@[k])@ == page[k],
            decreases n - i,
        {
            let ghost j = i - start_idx;
            out.push(pool_to_resp(&self.pools[i]));
            proof {
                assert(0 <= j < page.len());
                assert(page[j as int] == spec_pool_resp(self.pools@[s + j]));
                assert(out@[j as int]@ == spec_pool_resp(self.pools@[i as int]));
            }
            i = i + 1;
        }
        proof {
            assert(page.len() == out@.len());
            assert forall|k: int| 0 <= k < page.len() implies out.deep_view()[k] == page[k] by {
                assert(out.deep_view()[k] == out@[k].deep_view());
            }
            assert(out.deep_view() =~= page);
        }
        out
    }

    /// One query dispatch: the engine's whole read-only interface.
    pub fn query(&self, msg: QueryMsg) -> (r: Result<QueryAnswer, ContractError>)
        requires
            self.wf(),
        ensures
            match msg {
                QueryMsg::Config {} => {
                    &&& r is Ok
                    &&& r->Ok_0 matches QueryAnswer::Config(c)
                    &&& r->Ok_0->Config_0@.admin == self.config.admin@
                    &&& r->Ok_0->Config_0@.default_denom == self.config.default_denom@
                    &&& r->Ok_0->Config_0@.max_participants == self.config.max_participants
                },
                QueryMsg::GetPool { id } => if self.has_pool(id) {
                    r == Ok::<QueryAnswer, ContractError>(QueryAnswer::Pool(r->Ok_0->Pool_0))
                        && r->Ok_0->Pool_0@ == spec_pool_resp(self.pool_at(id))
                } else {
                    r == Err::<QueryAnswer, ContractError>(ContractError::PoolNotFound)
                },
                QueryMsg::ListContributions { pool_id, start_after, limit } => {
                    &&& r is Ok
                    &&& r->Ok_0 matches QueryAnswer::Contributions(cs)
                    &&& r->Ok_0->Contributions_0.deep_view() == contributions_page(
                        self.contributions@,
                        pool_id,
                        start_after.deep_view(),
                        limit,
                    )
                },
                QueryMsg::ListPools { start_after, limit } => {
                    &&& r is Ok
                    &&& r->Ok_0 matches QueryAnswer::Pools(ps)
                    &&& r->Ok_0->Pools_0.deep_view() == pools_page(
                        self.pools@,
                        start_after,
                        limit,
                    )
                },
            },
    {
        match msg {
            QueryMsg::Config {} => Ok(QueryAnswer::Config(self.query_config())),
            QueryMsg::GetPool { id } => match self.get_pool(id) {
                Some(p) => Ok(QueryAnswer::Pool(p)),
                None => Err(ContractError::PoolNotFound),
            },
            QueryMsg::ListContributions { pool_id, start_after, limit } => Ok(
                QueryAnswer::Contributions(
                    self.list_contributions(pool_id, start_after, limit),
                ),
            ),
            QueryMsg::ListPools { start_after, limit } => Ok(
                QueryAnswer::Pools(self.list_pools(start_after, limit)),
            ),
        }
    }
}

/// Without a matching cursor row, every page prefix is empty.
proof fn lemma_crows_upto_empty(
    cs: Seq<ContributionEntry>,
    pool: u64,
    start: Option<Seq<char>>,
    i: int,
)
    requires
        start is Some,
        !has_crow(cs, pool, start->0),
    ensures
        crows_upto(cs, pool, start, i) == Seq::<ContributionEntry>::empty(),
    decreases i,
{
    if i > 0 {
        lemma_crows_upto_empty(cs, pool, start, i - 1);
        assert(crows_upto(cs, pool, start, i) =~= Seq::<ContributionEntry>::empty());
    } else {
        assert(crows_upto(cs, pool, start, i) =~= Seq::<ContributionEntry>::empty());
    }
}

/// How many pools have an id at or below the cursor.
pub open spec fn pool_count_le(ps: Seq<Pool>, start: u64) -> int
    decreases ps.len(),
{
    if ps.len() == 0 {
        0
    } else {
        pool_count_le(ps.drop_last(), start) + if ps.last().id <= start {
            1int
        } else {
            0int
        }
    }
}

proof fn lemma_pool_count_le_boundary(ps: Seq<Pool>, start: u64, b: int)
    requires
        pools_sorted(ps),
        0 <= b <= ps.len(),
        forall|k: int| 0 <= k < b ==> (#[trigger] ps[k]).id <= start,
        b < ps.len() ==> ps[b].id > start,
    ensures
        pool_count_le(ps, start) == b,
    decreases ps.len(),
{
    if ps.len() == 0 {
    } else {
        let prefix = ps.drop_last();
        assert(pools_sorted(prefix));
        if b == ps.len() {
            lemma_pool_count_le_boundary(prefix, start, b - 1);
        } else {
            assert(ps[b].id > start);
            if b < ps.len() - 1 {
                assert(ps[b].id < ps.last().id);
            }
            lemma_pool_count_le_boundary(prefix, start, b);
        }
    }
}

/// The page of the full pool listing: at most `limit` pools in id
/// order, starting strictly after the cursor.
pub open spec fn pools_page(
    ps: Seq<Pool>,
    start_after: Option<u64>,
    limit: Option<u32>,
) -> Seq<PoolRespView> {
    let s: int = match start_after {
        Some(c) => pool_count_le(ps, c),
        None => 0,
    };
    let lim: int = match limit {
        Some(l) => l as int,
        None => 30,
    };
    let n = if lim <= ps.len() - s {
        lim
    } else {
        ps.len() - s
    };
    Seq::new(n as nat, |j: int| spec_pool_resp(ps[s + j]))
}

} // verus!
