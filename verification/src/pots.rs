//! The savings-pot component: an owner deposits toward a goal, may
//! break the pot early to take the funds back, and closes it once the
//! goal is reached.

use vstd::prelude::*;

use crate::host::BankSend;
use crate::host::BankSendView;
use crate::host::Coin;
use crate::host::CoinView;
use crate::host::Env;
use crate::host::Event;
use crate::host::EventView;
use crate::host::MessageInfo;
use crate::host::Response;
use crate::host::ResponseView;
use crate::strings::clone_opt_string;
use crate::strings::dec_of;
use crate::strings::str_eq;
use crate::strings::u128_to_dec;
use crate::strings::u64_to_dec;

verus! {

#[derive(Clone, Debug, PartialEq, Eq)]
pub struct InstantiateMsg {
    pub admin: Option<String>,
    pub default_denom: String,
}

#[derive(Clone, Debug, PartialEq, Eq)]
pub enum ExecuteMsg {
    OpenPot { goal: Coin, label: Option<String> },
    DepositPot { pot_id: u64, amount: Coin },
    BreakPot { pot_id: u64 },
    ClosePot { pot_id: u64 },
}

#[derive(Clone, Debug, PartialEq, Eq)]
pub enum QueryMsg {
    Config {},
    GetPot { id: u64 },
    ListPotsByOwner { owner: String, start_after: Option<u64>, limit: Option<u32> },
    ListAllPots { start_after: Option<u64>, limit: Option<u32> },
}

#[derive(Clone, Debug, PartialEq, Eq)]
pub struct ConfigResp {
    pub admin: String,
    pub default_denom: String,
}

pub struct ConfigRespView {
    pub admin: Seq<char>,
    pub default_denom: Seq<char>,
}

impl View for ConfigResp {
    type V = ConfigRespView;

    open spec fn view(&self) -> ConfigRespView {
        ConfigRespView { admin: self.admin@, default_denom: self.default_denom@ }
    }
}

#[derive(Clone, Debug, PartialEq, Eq)]
pub struct PotResp {
    pub id: u64,
    pub owner: String,
    pub goal: Coin,
    pub current: String,
    pub label: Option<String>,
    pub created_at: u64,
    pub closed: bool,
    pub broken: bool,
}

pub struct PotRespView {
    pub id: u64,
    pub owner: Seq<char>,
    pub goal: CoinView,
    pub current: Seq<char>,
    pub label: Option<Seq<char>>,
    pub created_at: u64,
    pub closed: bool,
    pub broken: bool,
}

impl View for PotResp {
    type V = PotRespView;

    open spec fn view(&self) -> PotRespView {
        PotRespView {
            id: self.id,
            owner: self.owner@,
            goal: self.goal@,
            current: self.current@,
            label: self.label.deep_view(),
            created_at: self.created_at,
            closed: self.closed,
            broken: self.broken,
        }
    }
}

impl DeepView for PotResp {
    type V = PotRespView;

    open spec fn deep_view(&self) -> PotRespView {
        self@
    }
}

#[derive(Clone, Debug, PartialEq, Eq)]
pub struct Config {
    pub admin: String,
    pub default_denom: String,
}

/// One savings pot: value deposited toward a goal, settled by breaking
/// early or closing at the goal.
#[derive(Clone, Debug, PartialEq, Eq)]
pub struct Pot {
    pub id: u64,
    pub owner: String,
    pub goal: Coin,
    pub current: u128,
    pub label: Option<String>,
    pub created_at: u64,
    pub closed: bool,
    pub broken: bool,
}

/// The pots of one owner, in creation order (the reverse index).
#[derive(Clone, Debug, PartialEq, Eq)]
pub struct OwnerPots {
    pub owner: String,
    pub pot_ids: Vec<u64>,
}

/// The typed answer of one query dispatch.
#[derive(Clone, Debug, PartialEq, Eq)]
pub enum QueryAnswer {
    Config(ConfigResp),
    Pot(PotResp),
    Pots(Vec<PotResp>),
}

#[derive(Clone, Debug, PartialEq, Eq)]
pub enum ContractError {
    Std(String),
    Unauthorized,
    PotNotFound,
    PotAlreadyClosed,
    PotAlreadyBroken,
    InvalidGoalAmount,
    InvalidDepositAmount,
    GoalNotReached,
    PotEmpty,
    InvalidDenom,
    PotLocked,
}

// ---------------------------------------------------------------------
// Events.
// ---------------------------------------------------------------------
pub open spec fn spec_evt_open_pot(
    id: u64,
    owner: Seq<char>,
    goal: u128,
    denom: Seq<char>,
    label: Option<Seq<char>>,
) -> EventView {
    EventView {
        name: "seimoney.open_pot"@,
        attributes: {
            let base = seq![
                ("id"@, dec_of(id as nat)),
                ("owner"@, owner),
                ("goal_amount"@, dec_of(goal as nat)),
                ("goal_denom"@, denom),
            ];
            match label {
                Some(text) => base.push(("label"@, text)),
                None => base,
            }
        },
    }
}

pub fn evt_open_pot(id: u64, owner: &str, goal: &Coin, label: &Option<String>) -> (r: Event)
    ensures
        r@ == spec_evt_open_pot(id, owner@, goal.amount, goal.denom@, label.deep_view()),
{
    let mut event = Event::new("seimoney.open_pot")
        .add_attribute("id", u64_to_dec(id))
        .add_attribute("owner", owner.to_owned())
        .add_attribute("goal_amount", u128_to_dec(goal.amount))
        .add_attribute("goal_denom", goal.denom.clone());
    if let Some(text) = label {
        event = event.add_attribute("label", text.clone());
    }
    proof {
        assert(event@.attributes =~= spec_evt_open_pot(
            id,
            owner@,
            goal.amount,
            goal.denom@,
            label.deep_view(),
        ).attributes);
    }
    event
}

pub open spec fn spec_evt_deposit_pot(
    pot_id: u64,
    owner: Seq<char>,
    amount: u128,
    denom: Seq<char>,
) -> EventView {
    EventView {
        name: "seimoney.deposit_pot"@,
        attributes: seq![
            ("pot_id"@, dec_of(pot_id as nat)),
            ("owner"@, owner),
            ("amount"@, dec_of(amount as nat)),
            ("denom"@, denom),
        ],
    }
}

pub fn evt_deposit_pot(pot_id: u64, owner: &str, amount: &u128, denom: &str) -> (r: Event)
    ensures
        r@ == spec_evt_deposit_pot(pot_id, owner@, *amount, denom@),
{
    let r = Event::new("seimoney.deposit_pot")
        .add_attribute("pot_id", u64_to_dec(pot_id))
        .add_attribute("owner", owner.to_owned())
        .add_attribute("amount", u128_to_dec(*amount))
        .add_attribute("denom", denom.to_owned());
    proof {
        assert(r@.attributes =~= spec_evt_deposit_pot(pot_id, owner@, *amount, denom@).attributes);
    }
    r
}

pub open spec fn spec_evt_break_pot(
    pot_id: u64,
    owner: Seq<char>,
    total: u128,
    denom: Seq<char>,
) -> EventView {
    EventView {
        name: "seimoney.break_pot"@,
        attributes: seq![
            ("pot_id"@, dec_of(pot_id as nat)),
            ("owner"@, owner),
            ("total_amount"@, dec_of(total as nat)),
            ("denom"@, denom),
        ],
    }
}

pub fn evt_break_pot(pot_id: u64, owner: &str, total_amount: &u128, denom: &str) -> (r: Event)
    ensures
        r@ == spec_evt_break_pot(pot_id, owner@, *total_amount, denom@),
{
    let r = Event::new("seimoney.break_pot")
        .add_attribute("pot_id", u64_to_dec(pot_id))
        .add_attribute("owner", owner.to_owned())
        .add_attribute("total_amount", u128_to_dec(*total_amount))
        .add_attribute("denom", denom.to_owned());
    proof {
        assert(r@.attributes =~= spec_evt_break_pot(
            pot_id,
            owner@,
            *total_amount,
            denom@,
        ).attributes);
    }
    r
}

pub open spec fn spec_evt_close_pot(
    pot_id: u64,
    owner: Seq<char>,
    total: u128,
    denom: Seq<char>,
) -> EventView {
    EventView {
        name: "seimoney.close_pot"@,
        attributes: seq![
            ("pot_id"@, dec_of(pot_id as nat)),
            ("owner"@, owner),
            ("total_amount"@, dec_of(total as nat)),
            ("denom"@, denom),
        ],
    }
}

pub fn evt_close_pot(pot_id: u64, owner: &str, total_amount: &u128, denom: &str) -> (r: Event)
    ensures
        r@ == spec_evt_close_pot(pot_id, owner@, *total_amount, denom@),
{
    let r = Event::new("seimoney.close_pot")
        .add_attribute("pot_id", u64_to_dec(pot_id))
        .add_attribute("owner", owner.to_owned())
        .add_attribute("total_amount", u128_to_dec(*total_amount))
        .add_attribute("denom", denom.to_owned());
    proof {
        assert(r@.attributes =~= spec_evt_close_pot(
            pot_id,
            owner@,
            *total_amount,
            denom@,
        ).attributes);
    }
    r
}

// ---------------------------------------------------------------------
// The engine.
// ---------------------------------------------------------------------
/// The whole persisted state of the savings-pot component.
pub struct PotsEngine {
    pub config: Config,
    pub next_pot_id: u64,
    pub pots: Vec<Pot>,
    pub owner_pots: Vec<OwnerPots>,
}

pub open spec fn pots_sorted(ps: Seq<Pot>) -> bool {
    forall|i: int, j: int| 0 <= i < j < ps.len() ==> #[trigger] ps[i].id < #[trigger] ps[j].id
}

pub open spec fn pot_ids_below(ps: Seq<Pot>, next: u64) -> bool {
    forall|i: int| 0 <= i < ps.len() ==> (#[trigger] ps[i]).id < next
}

pub open spec fn owners_unique(os: Seq<OwnerPots>) -> bool {
    forall|i: int, j: int|
        0 <= i < j < os.len() ==> (#[trigger] os[i]).owner@ != (#[trigger] os[j]).owner@
}

/// Whether some pot carries this id.
pub open spec fn pot_id_known(ps: Seq<Pot>, id: u64) -> bool {
    exists|i: int| 0 <= i < ps.len() && (#[trigger] ps[i]).id == id
}

pub open spec fn pots_listed(ps: Seq<Pot>, os: Seq<OwnerPots>) -> bool {
    forall|o: int, k: int|
        0 <= o < os.len() && 0 <= k < os[o].pot_ids@.len() ==> #[trigger] pot_id_known(
            ps,
            os[o].pot_ids@[k],
        )
}

impl PotsEngine {
    /// The engine invariant: established at instantiation and preserved
    /// by every command. Every id in the reverse index names a pot.
    pub open spec fn wf(self) -> bool {
        &&& pots_sorted(self.pots@)
        &&& pot_ids_below(self.pots@, self.next_pot_id)
        &&& owners_unique(self.owner_pots@)
        &&& pots_listed(self.pots@, self.owner_pots@)
    }

    pub open spec fn has_pot(self, id: u64) -> bool {
        pot_id_known(self.pots@, id)
    }

    pub open spec fn pot_at(self, id: u64) -> Pot {
        self.pots@[pot_idx(self.pots@, id)]
    }

    /// The pot ids recorded for an owner, in creation order.
    pub open spec fn ids_of(self, owner: Seq<char>) -> Seq<u64> {
        if has_owner(self.owner_pots@, owner) {
            self.owner_pots@[owner_row(self.owner_pots@, owner)].pot_ids@
        } else {
            Seq::empty()
        }
    }
}

pub open spec fn pot_idx(ps: Seq<Pot>, id: u64) -> int {
    choose|i: int| 0 <= i < ps.len() && (#[trigger] ps[i]).id == id
}

pub open spec fn has_owner(os: Seq<OwnerPots>, owner: Seq<char>) -> bool {
    exists|i: int| 0 <= i < os.len() && (#[trigger] os[i]).owner@ == owner
}

pub open spec fn owner_row(os: Seq<OwnerPots>, owner: Seq<char>) -> int {
    choose|i: int| 0 <= i < os.len() && (#[trigger] os[i]).owner@ == owner
}

proof fn lemma_pot_idx(ps: Seq<Pot>, i: int)
    requires
        pots_sorted(ps),
        0 <= i < ps.len(),
    ensures
        pot_idx(ps, ps[i].id) == i,
{
    let id = ps[i].id;
    assert(0 <= i < ps.len() && ps[i].id == id);
    let j = pot_idx(ps, id);
    if j < i {
        assert(ps[j].id < ps[i].id);
    } else if i < j {
        assert(ps[i].id < ps[j].id);
    }
}

proof fn lemma_owner_row(os: Seq<OwnerPots>, i: int)
    requires
        owners_unique(os),
        0 <= i < os.len(),
    ensures
        owner_row(os, os[i].owner@) == i,
{
    let a = os[i].owner@;
    assert(0 <= i < os.len() && os[i].owner@ == a);
    let j = owner_row(os, a);
    if j < i {
        assert(os[j].owner@ != os[i].owner@);
    } else if i < j {
        assert(os[i].owner@ != os[j].owner@);
    }
}

fn find_pot(ps: &Vec<Pot>, id: u64) -> (r: Option<usize>)
    ensures
        match r {
            Some(i) => 0 <= i < ps@.len() && ps@[i as int].id == id,
            None => forall|i: int| 0 <= i < ps@.len() ==> (#[trigger] ps@[i]).id != id,
        },
{
    let mut i: usize = 0;
    while i < ps.len()
        invariant
            0 <= i <= ps@.len(),
            forall|j: int| 0 <= j < i ==> (#[trigger] ps@[j]).id != id,
        decreases ps@.len() - i,
    {
        if ps[i].id == id {
            return Some(i);
        }
        i = i + 1;
    }
    None
}

fn find_owner(os: &Vec<OwnerPots>, owner: &str) -> (r: Option<usize>)
    ensures
        match r {
            Some(i) => 0 <= i < os@.len() && os@[i as int].owner@ == owner@,
            None => forall|i: int| 0 <= i < os@.len() ==> (#[trigger] os@[i]).owner@ != owner@,
        },
{
    let mut i: usize = 0;
    while i < os.len()
        invariant
            0 <= i <= os@.len(),
            forall|j: int| 0 <= j < i ==> (#[trigger] os@[j]).owner@ != owner@,
        decreases os@.len() - i,
    {
        if str_eq(os[i].owner.as_str(), owner) {
            return Some(i);
        }
        i = i + 1;
    }
    None
}

/// The view of an execution result: the response abstracted, the error
/// kept.
pub open spec fn result_view(r: Result<Response, ContractError>) -> Result<
    ResponseView,
    ContractError,
> {
    match r {
        Ok(resp) => Ok(resp@),
        Err(e) => Err(e),
    }
}

impl PotsEngine {
    /// Sets up an empty engine: the administrator (the sender unless
    /// named) and the accepted denomination.
    pub fn instantiate(info: &MessageInfo, msg: InstantiateMsg) -> (r: (PotsEngine, Response))
        ensures
            r.0.wf(),
            r.0.config.admin@ == match msg.admin {
                Some(a) => a@,
                None => info.sender@,
            },
            r.0.config.default_denom@ == msg.default_denom@,
            r.0.next_pot_id == 1,
            r.0.pots@.len() == 0,
            r.0.owner_pots@.len() == 0,
            r.1@.messages.len() == 0,
            r.1@.events.len() == 0,
            r.1@.attributes == seq![("action"@, "instantiate"@)],
    {
        let admin = match msg.admin {
            Some(a) => a,
            None => info.sender.clone(),
        };
        let engine = PotsEngine {
            config: Config { admin, default_denom: msg.default_denom },
            next_pot_id: 1,
            pots: Vec::new(),
            owner_pots: Vec::new(),
        };
        let resp = Response::new().add_attribute("action", "instantiate");
        (engine, resp)
    }
}

/// Which failure, if any, opening a pot meets.
pub open spec fn open_pot_check(pre: PotsEngine, goal: Coin) -> Option<ContractError> {
    if goal.denom@ != pre.config.default_denom@ {
        Some(ContractError::InvalidDenom)
    } else if goal.amount == 0 {
        Some(ContractError::InvalidGoalAmount)
    } else {
        None
    }
}

/// Everything opening a pot does: the pot is created empty and its id
/// joins the owner's reverse index.
pub open spec fn open_pot_rel(
    pre: PotsEngine,
    post: PotsEngine,
    now: u64,
    sender: Seq<char>,
    goal: Coin,
    label: Option<String>,
    r: Result<ResponseView, ContractError>,
) -> bool {
    &&& post.config == pre.config
    &&& match open_pot_check(pre, goal) {
        Some(e) => r == Err::<ResponseView, ContractError>(e) && post == pre,
        None => {
            &&& post.next_pot_id == pre.next_pot_id + 1
            &&& post.pots@.len() == pre.pots@.len() + 1
            &&& post.pots@.subrange(0, pre.pots@.len() as int) == pre.pots@
            &&& ({
                let p = post.pots@.last();
                &&& p.id == pre.next_pot_id
                &&& p.owner@ == sender
                &&& p.goal == goal
                &&& p.current == 0
                &&& p.label == label
                &&& p.created_at == now
                &&& !p.closed
                &&& !p.broken
            })
            &&& post.ids_of(sender) == pre.ids_of(sender).push(pre.next_pot_id)
            &&& forall|a: Seq<char>| a != sender ==> post.ids_of(a) == pre.ids_of(a)
            &&& r == Ok::<ResponseView, ContractError>(
                ResponseView {
                    messages: Seq::empty(),
                    attributes: seq![("action"@, "open_pot"@)],
                    events: seq![
                        spec_evt_open_pot(
                            pre.next_pot_id,
                            sender,
                            goal.amount,
                            goal.denom@,
                            label.deep_view(),
                        ),
                    ],
                },
            )
        },
    }
}

impl PotsEngine {
    /// Opens a pot with a positive goal in the configured denomination,
    /// and records it under its owner.
    pub fn exec_open_pot(
        &mut self,
        env: &Env,
        info: &MessageInfo,
        goal: Coin,
        label: Option<String>,
    ) -> (r: Result<Response, ContractError>)
        requires
            old(self).wf(),
            old(self).next_pot_id < u64::MAX,
        ensures
            final(self).wf(),
            open_pot_rel(
                *old(self),
                *final(self),
                env.block_time.spec_seconds(),
                info.sender@,
                goal,
                label,
                result_view(r),
            ),
    {
        if !str_eq(goal.denom.as_str(), self.config.default_denom.as_str()) {
            return Err(ContractError::InvalidDenom);
        }
        if goal.amount == 0 {
            return Err(ContractError::InvalidGoalAmount);
        }
        let id = self.next_pot_id;
        let event = evt_open_pot(id, info.sender.as_str(), &goal, &label);
        let pot = Pot {
            id,
            owner: info.sender.clone(),
            goal,
            current: 0,
            label,
            created_at: env.block_time.seconds(),
            closed: false,
            broken: false,
        };
        self.pots.push(pot);
        let ghost pre_owners = self.owner_pots@;
        match find_owner(&self.owner_pots, info.sender.as_str()) {
            Some(j) => {
                proof {
                    lemma_owner_row(pre_owners, j as int);
                }
                let mut row = self.owner_pots.remove(j);
                row.pot_ids.push(id);
                self.owner_pots.insert(j, row);
                proof {
                    assert(self.owner_pots@ =~= pre_owners.update(
                        j as int,
                        OwnerPots { pot_ids: self.owner_pots@[j as int].pot_ids, ..pre_owners[j as int] },
                    ));
                }
            },
            None => {
                let mut pot_ids: Vec<u64> = Vec::new();
                pot_ids.push(id);
                self.owner_pots.push(OwnerPots { owner: info.sender.clone(), pot_ids });
                proof {
                    assert(self.owner_pots@.drop_last() =~= pre_owners);
                }
            },
        }
        self.next_pot_id = id + 1;
        proof {
            let sender = info.sender@;
            // The reverse index still names known pots and unique owners.
            assert forall|o: int, k: int|
                0 <= o < self.owner_pots@.len() && 0 <= k
                    < self.owner_pots@[o].pot_ids@.len() implies #[trigger] pot_id_known(
                self.pots@,
                self.owner_pots@[o].pot_ids@[k],
            ) by {
                let target = self.owner_pots@[o].pot_ids@[k];
                if target == id {
                    assert(self.pots@[self.pots@.len() - 1].id == id);
                } else {
                    assert(o < pre_owners.len());
                    let row = pre_owners[o];
                    if has_owner(pre_owners, sender) && o == owner_row(pre_owners, sender) && k
                        == self.owner_pots@[o].pot_ids@.len() - 1 {
                        assert(target == id);
                    } else {
                        assert(row.pot_ids@.len() > k ==> row.pot_ids@[k]
                            == self.owner_pots@[o].pot_ids@[k]);
                        assert(pot_id_known(old(self).pots@, target));
                        let w = choose|i: int|
                            0 <= i < old(self).pots@.len() && (#[trigger] old(self).pots@[i]).id
                                == target;
                        assert(self.pots@[w].id == target);
                    }
                }
            }
            assert(owners_unique(self.owner_pots@)) by {
                assert forall|p: int, q: int| 0 <= p < q < self.owner_pots@.len() implies (
                #[trigger] self.owner_pots@[p]).owner@ != (
                #[trigger] self.owner_pots@[q]).owner@ by {
                    if q < pre_owners.len() {
                        assert(pre_owners[p].owner@ != pre_owners[q].owner@);
                        assert(self.owner_pots@[p].owner@ == pre_owners[p].owner@);
                        assert(self.owner_pots@[q].owner@ == pre_owners[q].owner@);
                    } else {
                        assert(!has_owner(pre_owners, sender));
                        assert(self.owner_pots@[p] == pre_owners[p]);
                    }
                }
            }
            // The owner's id list grew by the new id; other lists kept.
            if has_owner(pre_owners, sender) {
                let j = owner_row(pre_owners, sender);
                assert(pre_owners[j].owner@ == sender);
                assert(self.owner_pots@[j].owner@ == sender);
                assert(has_owner(self.owner_pots@, sender));
                lemma_owner_row(self.owner_pots@, j);
                assert(self.ids_of(sender) =~= old(self).ids_of(sender).push(id));
            } else {
                assert(self.owner_pots@[self.owner_pots@.len() - 1].owner@ == sender);
                assert(has_owner(self.owner_pots@, sender));
                lemma_owner_row(self.owner_pots@, self.owner_pots@.len() - 1);
                assert(old(self).ids_of(sender) =~= Seq::<u64>::empty()) by {
                    if has_owner(pre_owners, sender) {
                    }
                }
                assert(self.ids_of(sender) =~= old(self).ids_of(sender).push(id));
            }
            assert forall|a: Seq<char>| a != sender implies self.ids_of(a) == old(self).ids_of(
                a,
            ) by {
                if has_owner(pre_owners, a) {
                    let w = owner_row(pre_owners, a);
                    assert(pre_owners[w].owner@ == a);
                    assert(self.owner_pots@[w].owner@ == a);
                    assert(has_owner(self.owner_pots@, a));
                    lemma_owner_row(self.owner_pots@, w);
                    assert(owner_row(self.owner_pots@, a) == w);
                    assert(self.owner_pots@[w].pot_ids == pre_owners[w].pot_ids);
                } else {
                    assert(!has_owner(self.owner_pots@, a)) by {
                        if has_owner(self.owner_pots@, a) {
                            let w = owner_row(self.owner_pots@, a);
                            assert(self.owner_pots@[w].owner@ == a);
                            if w < pre_owners.len() {
                                assert(pre_owners[w].owner@ == a || (has_owner(pre_owners, sender)
                                    && w == owner_row(pre_owners, sender)));
                            }
                        }
                    }
                }
            }
        }
        let resp = Response::new().add_event(event).add_attribute("action", "open_pot");
        proof {
            assert(self.pots@.subrange(0, old(self).pots@.len() as int) =~= old(self).pots@);
            assert(resp@.messages =~= Seq::<BankSendView>::empty());
            assert(resp@.attributes =~= seq![("action"@, "open_pot"@)]);
            assert(resp@.events =~= seq![event@]);
        }
        Ok(resp)
    }
}

/// Which failure, if any, a pot deposit meets. An arithmetic overflow
/// fails the command rather than wrap.
pub open spec fn deposit_pot_check(pre: PotsEngine, pot_id: u64, amount: Coin) -> Option<
    ContractError,
> {
    if !pre.has_pot(pot_id) {
        Some(ContractError::PotNotFound)
    } else {
        let p = pre.pot_at(pot_id);
        if p.closed {
            Some(ContractError::PotAlreadyClosed)
        } else if p.broken {
            Some(ContractError::PotAlreadyBroken)
        } else if amount.denom@ != pre.config.default_denom@ {
            Some(ContractError::InvalidDenom)
        } else if amount.amount == 0 {
            Some(ContractError::InvalidDepositAmount)
        } else if p.current + amount.amount > u128::MAX {
            Some(ContractError::InvalidDepositAmount)
        } else {
            None
        }
    }
}

/// Everything a pot deposit does.
pub open spec fn deposit_pot_rel(
    pre: PotsEngine,
    post: PotsEngine,
    pot_id: u64,
    amount: Coin,
    r: Result<ResponseView, ContractError>,
) -> bool {
    &&& post.config == pre.config
    &&& post.next_pot_id == pre.next_pot_id
    &&& post.owner_pots == pre.owner_pots
    &&& match deposit_pot_check(pre, pot_id, amount) {
        Some(e) => r == Err::<ResponseView, ContractError>(e) && post == pre,
        None => {
            let p = pre.pot_at(pot_id);
            let idx = pot_idx(pre.pots@, pot_id);
            &&& post.pots@ == pre.pots@.update(
                idx,
                Pot { current: (p.current + amount.amount) as u128, ..p },
            )
            &&& r == Ok::<ResponseView, ContractError>(
                ResponseView {
                    messages: Seq::empty(),
                    attributes: seq![("action"@, "deposit_pot"@)],
                    events: seq![
                        spec_evt_deposit_pot(pot_id, p.owner@, amount.amount, amount.denom@),
                    ],
                },
            )
        },
    }
}

/// Everything breaking a pot does: the owner takes the saved value
/// back early, and the pot is closed to further use.
pub open spec fn break_pot_rel(
    pre: PotsEngine,
    post: PotsEngine,
    sender: Seq<char>,
    pot_id: u64,
    r: Result<ResponseView, ContractError>,
) -> bool {
    &&& post.config == pre.config
    &&& post.next_pot_id == pre.next_pot_id
    &&& post.owner_pots == pre.owner_pots
    &&& if !pre.has_pot(pot_id) {
        r == Err::<ResponseView, ContractError>(ContractError::PotNotFound) && post == pre
    } else {
        let p = pre.pot_at(pot_id);
        let idx = pot_idx(pre.pots@, pot_id);
        if sender != p.owner@ {
            r == Err::<ResponseView, ContractError>(ContractError::Unauthorized) && post == pre
        } else if p.closed {
            r == Err::<ResponseView, ContractError>(ContractError::PotAlreadyClosed) && post
                == pre
        } else if p.broken {
            r == Err::<ResponseView, ContractError>(ContractError::PotAlreadyBroken) && post
                == pre
        } else if p.current == 0 {
            r == Err::<ResponseView, ContractError>(ContractError::PotEmpty) && post == pre
        } else {
            &&& post.pots@ == pre.pots@.update(idx, Pot { broken: true, ..p })
            &&& r == Ok::<ResponseView, ContractError>(
                ResponseView {
                    messages: seq![
                        BankSendView {
                            to_address: p.owner@,
                            amount: seq![
                                CoinView { denom: p.goal.denom@, amount: p.current },
                            ],
                        },
                    ],
                    attributes: seq![("action"@, "break_pot"@)],
                    events: seq![
                        spec_evt_break_pot(pot_id, p.owner@, p.current, p.goal.denom@),
                    ],
                },
            )
        }
    }
}

/// Everything closing a pot does: once the goal is reached the owner
/// collects the saved value and the pot closes.
pub open spec fn close_pot_rel(
    pre: PotsEngine,
    post: PotsEngine,
    sender: Seq<char>,
    pot_id: u64,
    r: Result<ResponseView, ContractError>,
) -> bool {
    &&& post.config == pre.config
    &&& post.next_pot_id == pre.next_pot_id
    &&& post.owner_pots == pre.owner_pots
    &&& if !pre.has_pot(pot_id) {
        r == Err::<ResponseView, ContractError>(ContractError::PotNotFound) && post == pre
    } else {
        let p = pre.pot_at(pot_id);
        let idx = pot_idx(pre.pots@, pot_id);
        if sender != p.owner@ {
            r == Err::<ResponseView, ContractError>(ContractError::Unauthorized) && post == pre
        } else if p.closed {
            r == Err::<ResponseView, ContractError>(ContractError::PotAlreadyClosed) && post
                == pre
        } else if p.broken {
            r == Err::<ResponseView, ContractError>(ContractError::PotAlreadyBroken) && post
                == pre
        } else if p.current < p.goal.amount {
            r == Err::<ResponseView, ContractError>(ContractError::GoalNotReached) && post
                == pre
        } else {
            &&& post.pots@ == pre.pots@.update(idx, Pot { closed: true, ..p })
            &&& r == Ok::<ResponseView, ContractError>(
                ResponseView {
                    messages: seq![
                        BankSendView {
                            to_address: p.owner@,
                            amount: seq![
                                CoinView { denom: p.goal.denom@, amount: p.current },
                            ],
                        },
                    ],
                    attributes: seq![("action"@, "close_pot"@)],
                    events: seq![
                        spec_evt_close_pot(pot_id, p.owner@, p.current, p.goal.denom@),
                    ],
                },
            )
        }
    }
}

impl PotsEngine {
    /// Deposits into an open pot: the denomination must match and the
    /// amount be positive; an overflow fails the command.
    pub fn exec_deposit_pot(&mut self, info: &MessageInfo, pot_id: u64, amount: Coin) -> (r:
        Result<Response, ContractError>)
        requires
            old(self).wf(),
        ensures
            final(self).wf(),
            deposit_pot_rel(*old(self), *final(self), pot_id, amount, result_view(r)),
    {
        let i = match find_pot(&self.pots, pot_id) {
            Some(i) => i,
            None => {
                return Err(ContractError::PotNotFound);
            },
        };
        proof {
            lemma_pot_idx(self.pots@, i as int);
        }
        if self.pots[i].closed {
            return Err(ContractError::PotAlreadyClosed);
        }
        if self.pots[i].broken {
            return Err(ContractError::PotAlreadyBroken);
        }
        if !str_eq(amount.denom.as_str(), self.config.default_denom.as_str()) {
            return Err(ContractError::InvalidDenom);
        }
        if amount.amount == 0 {
            return Err(ContractError::InvalidDepositAmount);
        }
        let new_current = match self.pots[i].current.checked_add(amount.amount) {
            Some(v) => v,
            None => {
                return Err(ContractError::InvalidDepositAmount);
            },
        };
        let ghost p = self.pots@[i as int];
        let mut pot = self.pots.remove(i);
        pot.current = new_current;
        let owner = pot.owner.clone();
        self.pots.insert(i, pot);
        proof {
            assert(self.pots@ =~= old(self).pots@.update(
                i as int,
                Pot { current: new_current, ..p },
            ));
            assert forall|k: int| 0 <= k < self.pots@.len() implies (#[trigger] self.pots@[k]).id
                == old(self).pots@[k].id by {}
            assert(pots_listed(self.pots@, self.owner_pots@)) by {
                assert forall|o: int, k: int|
                    0 <= o < self.owner_pots@.len() && 0 <= k
                        < self.owner_pots@[o].pot_ids@.len() implies #[trigger] pot_id_known(
                    self.pots@,
                    self.owner_pots@[o].pot_ids@[k],
                ) by {
                    let t = self.owner_pots@[o].pot_ids@[k];
                    assert(pot_id_known(old(self).pots@, t));
                    let w = choose|w: int|
                        0 <= w < old(self).pots@.len() && (#[trigger] old(self).pots@[w]).id == t;
                    assert(self.pots@[w].id == t);
                }
            }
        }
        let event = evt_deposit_pot(pot_id, owner.as_str(), &amount.amount, amount.denom.as_str());
        let resp = Response::new().add_event(event).add_attribute("action", "deposit_pot");
        proof {
            assert(resp@.messages =~= Seq::<BankSendView>::empty());
            assert(resp@.attributes =~= seq![("action"@, "deposit_pot"@)]);
            assert(resp@.events =~= seq![event@]);
        }
        Ok(resp)
    }

    /// Breaks a pot: the owner takes the saved value back early.
    pub fn exec_break_pot(&mut self, info: &MessageInfo, pot_id: u64) -> (r: Result<
        Response,
        ContractError,
    >)
        requires
            old(self).wf(),
        ensures
            final(self).wf(),
            break_pot_rel(*old(self), *final(self), info.sender@, pot_id, result_view(r)),
    {
        let i = match find_pot(&self.pots, pot_id) {
            Some(i) => i,
            None => {
                return Err(ContractError::PotNotFound);
            },
        };
        proof {
            lemma_pot_idx(self.pots@, i as int);
        }
        if !str_eq(info.sender.as_str(), self.pots[i].owner.as_str()) {
            return Err(ContractError::Unauthorized);
        }
        if self.pots[i].closed {
            return Err(ContractError::PotAlreadyClosed);
        }
        if self.pots[i].broken {
            return Err(ContractError::PotAlreadyBroken);
        }
        if self.pots[i].current == 0 {
            return Err(ContractError::PotEmpty);
        }
        let ghost p = self.pots@[i as int];
        let mut pot = self.pots.remove(i);
        pot.broken = true;
        let owner = pot.owner.clone();
        let total = pot.current;
        let coin = Coin { denom: pot.goal.denom.clone(), amount: total };
        self.pots.insert(i, pot);
        proof {
            assert(self.pots@ =~= old(self).pots@.update(i as int, Pot { broken: true, ..p }));
            assert forall|k: int| 0 <= k < self.pots@.len() implies (#[trigger] self.pots@[k]).id
                == old(self).pots@[k].id by {}
            assert(pots_listed(self.pots@, self.owner_pots@)) by {
                assert forall|o: int, k: int|
                    0 <= o < self.owner_pots@.len() && 0 <= k
                        < self.owner_pots@[o].pot_ids@.len() implies #[trigger] pot_id_known(
                    self.pots@,
                    self.owner_pots@[o].pot_ids@[k],
                ) by {
                    let t = self.owner_pots@[o].pot_ids@[k];
                    assert(pot_id_known(old(self).pots@, t));
                    let w = choose|w: int|
                        0 <= w < old(self).pots@.len() && (#[trigger] old(self).pots@[w]).id == t;
                    assert(self.pots@[w].id == t);
                }
            }
        }
        let event = evt_break_pot(pot_id, owner.as_str(), &total, coin.denom.as_str());
        let mut coins: Vec<Coin> = Vec::new();
        coins.push(coin);
        let bank = BankSend { to_address: owner, amount: coins };
        proof {
            assert(bank@.amount =~= seq![CoinView { denom: p.goal.denom@, amount: p.current }]);
        }
        let resp = Response::new().add_message(bank).add_event(event).add_attribute(
            "action",
            "break_pot",
        );
        proof {
            assert(resp@.messages =~= seq![bank@]);
            assert(resp@.attributes =~= seq![("action"@, "break_pot"@)]);
            assert(resp@.events =~= seq![event@]);
        }
        Ok(resp)
    }

    /// Closes a pot whose goal is reached; the owner collects the
    /// saved value.
    pub fn exec_close_pot(&mut self, info: &MessageInfo, pot_id: u64) -> (r: Result<
        Response,
        ContractError,
    >)
        requires
            old(self).wf(),
        ensures
            final(self).wf(),
            close_pot_rel(*old(self), *final(self), info.sender@, pot_id, result_view(r)),
    {
        let i = match find_pot(&self.pots, pot_id) {
            Some(i) => i,
            None => {
                return Err(ContractError::PotNotFound);
            },
        };
        proof {
            lemma_pot_idx(self.pots@, i as int);
        }
        if !str_eq(info.sender.as_str(), self.pots[i].owner.as_str()) {
            return Err(ContractError::Unauthorized);
        }
        if self.pots[i].closed {
            return Err(ContractError::PotAlreadyClosed);
        }
        if self.pots[i].broken {
            return Err(ContractError::PotAlreadyBroken);
        }
        if self.pots[i].current < self.pots[i].goal.amount {
            return Err(ContractError::GoalNotReached);
        }
        let ghost p = self.pots@[i as int];
        let mut pot = self.pots.remove(i);
        pot.closed = true;
        let owner = pot.owner.clone();
        let total = pot.current;
        let coin = Coin { denom: pot.goal.denom.clone(), amount: total };
        self.pots.insert(i, pot);
        proof {
            assert(self.pots@ =~= old(self).pots@.update(i as int, Pot { closed: true, ..p }));
            assert forall|k: int| 0 <= k < self.pots@.len() implies (#[trigger] self.pots@[k]).id
                == old(self).pots@[k].id by {}
            assert(pots_listed(self.pots@, self.owner_pots@)) by {
                assert forall|o: int, k: int|
                    0 <= o < self.owner_pots@.len() && 0 <= k
                        < self.owner_pots@[o].pot_ids@.len() implies #[trigger] pot_id_known(
                    self.pots@,
                    self.owner_pots@[o].pot_ids@[k],
                ) by {
                    let t = self.owner_pots@[o].pot_ids@[k];
                    assert(pot_id_known(old(self).pots@, t));
                    let w = choose|w: int|
                        0 <= w < old(self).pots@.len() && (#[trigger] old(self).pots@[w]).id == t;
                    assert(self.pots@[w].id == t);
                }
            }
        }
        let event = evt_close_pot(pot_id, owner.as_str(), &total, coin.denom.as_str());
        let mut coins: Vec<Coin> = Vec::new();
        coins.push(coin);
        let bank = BankSend { to_address: owner, amount: coins };
        proof {
            assert(bank@.amount =~= seq![CoinView { denom: p.goal.denom@, amount: p.current }]);
        }
        let resp = Response::new().add_message(bank).add_event(event).add_attribute(
            "action",
            "close_pot",
        );
        proof {
            assert(resp@.messages =~= seq![bank@]);
            assert(resp@.attributes =~= seq![("action"@, "close_pot"@)]);
            assert(resp@.events =~= seq![event@]);
        }
        Ok(resp)
    }

    /// One command dispatch: the engine's whole mutating interface.
    pub fn execute(&mut self, env: &Env, info: &MessageInfo, msg: ExecuteMsg) -> (r: Result<
        Response,
        ContractError,
    >)
        requires
            old(self).wf(),
            msg is OpenPot ==> old(self).next_pot_id < u64::MAX,
        ensures
            final(self).wf(),
            match msg {
                ExecuteMsg::OpenPot { goal, label } => open_pot_rel(
                    *old(self),
                    *final(self),
                    env.block_time.spec_seconds(),
                    info.sender@,
                    goal,
                    label,
                    result_view(r),
                ),
                ExecuteMsg::DepositPot { pot_id, amount } => deposit_pot_rel(
                    *old(self),
                    *final(self),
                    pot_id,
                    amount,
                    result_view(r),
                ),
                ExecuteMsg::BreakPot { pot_id } => break_pot_rel(
                    *old(self),
                    *final(self),
                    info.sender@,
                    pot_id,
                    result_view(r),
                ),
                ExecuteMsg::ClosePot { pot_id } => close_pot_rel(
                    *old(self),
                    *final(self),
                    info.sender@,
                    pot_id,
                    result_view(r),
                ),
            },
    {
        match msg {
            ExecuteMsg::OpenPot { goal, label } => self.exec_open_pot(env, info, goal, label),
            ExecuteMsg::DepositPot { pot_id, amount } => self.exec_deposit_pot(
                info,
                pot_id,
                amount,
            ),
            ExecuteMsg::BreakPot { pot_id } => self.exec_break_pot(info, pot_id),
            ExecuteMsg::ClosePot { pot_id } => self.exec_close_pot(info, pot_id),
        }
    }
}

// ---------------------------------------------------------------------
// Queries.
// ---------------------------------------------------------------------
/// The ghost shape of a pot answer.
pub open spec fn spec_pot_resp(p: Pot) -> PotRespView {
    PotRespView {
        id: p.id,
        owner: p.owner@,
        goal: p.goal@,
        current: dec_of(p.current as nat),
        label: p.label.deep_view(),
        created_at: p.created_at,
        closed: p.closed,
        broken: p.broken,
    }
}

fn pot_to_resp(p: &Pot) -> (r: PotResp)
    ensures
        r@ == spec_pot_resp(*p),
{
    PotResp {
        id: p.id,
        owner: p.owner.clone(),
        goal: p.goal.clone_coin(),
        current: u128_to_dec(p.current),
        label: clone_opt_string(&p.label),
        created_at: p.created_at,
        closed: p.closed,
        broken: p.broken,
    }
}

/// The ids past the cursor, in stored order.
pub open spec fn ids_after(ids: Seq<u64>, start: Option<u64>) -> Seq<u64>
    decreases ids.len(),
{
    if ids.len() == 0 {
        Seq::empty()
    } else {
        ids_after(ids.drop_last(), start) + if start is Some && ids.last() <= start->0 {
            Seq::empty()
        } else {
            seq![ids.last()]
        }
    }
}

/// The page of an owner listing: the first `limit` of the owner's pots
/// past the cursor, in creation order.
pub open spec fn owner_page(
    pre: PotsEngine,
    owner: Seq<char>,
    start_after: Option<u64>,
    limit: Option<u32>,
) -> Seq<PotRespView> {
    let sel = ids_after(pre.ids_of(owner), start_after);
    let lim: int = match limit {
        Some(l) => l as int,
        None => 30,
    };
    let n = if lim <= sel.len() {
        lim
    } else {
        sel.len() as int
    };
    Seq::new(n as nat, |j: int| spec_pot_resp(pre.pot_at(sel[j])))
}

/// How many pots have an id at or below the cursor.
pub open spec fn count_le(ps: Seq<Pot>, start: u64) -> int
    decreases ps.len(),
{
    if ps.len() == 0 {
        0
    } else {
        count_le(ps.drop_last(), start) + if ps.last().id <= start {
            1int
        } else {
            0int
        }
    }
}

proof fn lemma_count_le_boundary(ps: Seq<Pot>, start: u64, b: int)
    requires
        pots_sorted(ps),
        0 <= b <= ps.len(),
        forall|k: int| 0 <= k < b ==> (#[trigger] ps[k]).id <= start,
        b < ps.len() ==> ps[b].id > start,
    ensures
        count_le(ps, start) == b,
    decreases ps.len(),
{
    if ps.len() == 0 {
    } else {
        let prefix = ps.drop_last();
        assert(pots_sorted(prefix));
        if b == ps.len() {
            lemma_count_le_boundary(prefix, start, b - 1);
        } else {
            assert(ps[b].id > start);
            if b < ps.len() - 1 {
                assert(ps[b].id < ps.last().id);
            }
            lemma_count_le_boundary(prefix, start, b);
        }
    }
}

/// The page of the full listing: at most `limit` pots in id order,
/// starting strictly after the cursor.
pub open spec fn pots_page(
    ps: Seq<Pot>,
    start_after: Option<u64>,
    limit: Option<u32>,
) -> Seq<PotRespView> {
    let s: int = match start_after {
        Some(c) => count_le(ps, c),
        None => 0,
    };
    let lim: int = match limit {
        Some(l) => l as int,
        None => 30,
    };
    let n = if lim <= ps.len() - s {
        lim
    } else {
        ps.len() - s
    };
    Seq::new(n as nat, |j: int| spec_pot_resp(ps[s + j]))
}

impl PotsEngine {
    /// The configuration, as a query answer.
    pub fn query_config(&self) -> (r: ConfigResp)
        ensures
            r@.admin == self.config.admin@,
            r@.default_denom == self.config.default_denom@,
    {
        ConfigResp {
            admin: self.config.admin.clone(),
            default_denom: self.config.default_denom.clone(),
        }
    }

    /// One pot by id, or nothing when the id is unknown.
    pub fn get_pot(&self, id: u64) -> (r: Option<PotResp>)
        requires
            self.wf(),
        ensures
            r is Some <==> self.has_pot(id),
            r is Some ==> r->0@ == spec_pot_resp(self.pot_at(id)),
    {
        match find_pot(&self.pots, id) {
            Some(i) => {
                proof {
                    lemma_pot_idx(self.pots@, i as int);
                }
                Some(pot_to_resp(&self.pots[i]))
            },
            None => None,
        }
    }

    /// An owner's pots in creation order past the cursor, capped at
    /// the limit (30 when unnamed).
    pub fn list_pots_by_owner(
        &self,
        owner: &str,
        start_after: Option<u64>,
        limit: Option<u32>,
    ) -> (r: Vec<PotResp>)
        requires
            self.wf(),
        ensures
            r.deep_view() == owner_page(*self, owner@, start_after, limit),
    {
        let lim: usize = match limit {
            Some(l) => l as usize,
            None => 30,
        };
        let mut out: Vec<PotResp> = Vec::new();
        let row = match find_owner(&self.owner_pots, owner) {
            Some(j) => j,
            None => {
                proof {
                    assert(!has_owner(self.owner_pots@, owner@));
                    assert(ids_after(self.ids_of(owner@), start_after) =~= Seq::<u64>::empty());
                    assert(out.deep_view() =~= owner_page(*self, owner@, start_after, limit));
                }
                return out;
            },
        };
        proof {
            lemma_owner_row(self.owner_pots@, row as int);
            assert(self.ids_of(owner@) == self.owner_pots@[row as int].pot_ids@);
        }
        let ids = &self.owner_pots[row].pot_ids;
        let n = ids.len();
        let mut i: usize = 0;
        while i < n
            invariant
                0 <= i <= n == ids@.len(),
                self.wf(),
                ids@ == self.ids_of(owner@),
                lim == match limit {
                    Some(l) => l as int,
                    None => 30int,
                },
                out@.len() == ({
                    let sel = ids_after(ids@.subrange(0, i as int), start_after);
                    if lim <= sel.len() {
                        lim as int
                    } else {
                        sel.len() as int
                    }
                }),
                forall|k: int|
                    0 <= k < out@.len() ==> (#[trigger] out@[k])@ == spec_pot_resp(
                        self.pot_at(ids_after(ids@.subrange(0, i as int), start_after)[k]),
                    ),
            decreases n - i,
        {
            let ghost prefix = ids@.subrange(0, i as int);
            let ghost sel = ids_after(prefix, start_after);
            let id = ids[i];
            let past_cursor = match start_after {
                Some(s) => id > s,
                None => true,
            };
            proof {
                assert(ids@.subrange(0, i + 1).drop_last() =~= prefix);
                assert(ids@.subrange(0, i + 1).last() == ids@[i as int]);
            }
            if past_cursor && out.len() < lim {
                proof {
                    assert(has_owner(self.owner_pots@, owner@));
                    let o = owner_row(self.owner_pots@, owner@);
                    assert(self.owner_pots@[o].pot_ids@[i as int] == id);
                    assert(pot_id_known(self.pots@, self.owner_pots@[o].pot_ids@[i as int]));
                }
                let pi = match find_pot(&self.pots, id) {
                    Some(pi) => pi,
                    None => {
                        proof {
                            assert(false);
                        }
                        return out;
                    },
                };
                proof {
                    lemma_pot_idx(self.pots@, pi as int);
                }
                out.push(pot_to_resp(&self.pots[pi]));
                proof {
                    let sel2 = ids_after(ids@.subrange(0, i + 1), start_after);
                    assert(sel2 =~= sel + seq![id]);
                    assert(out@[out@.len() - 1]@ == spec_pot_resp(self.pot_at(id)));
                }
            } else {
                proof {
                    let sel2 = ids_after(ids@.subrange(0, i + 1), start_after);
                    if start_after is Some && id <= start_after->0 {
                        assert(sel2 =~= sel);
                    } else {
                        assert(sel2 =~= sel + seq![id]);
                    }
                }
            }
            i = i + 1;
        }
        proof {
            assert(ids@.subrange(0, n as int) =~= ids@);
            let page = owner_page(*self, owner@, start_after, limit);
            assert(page.len() == out@.len());
            assert forall|k: int| 0 <= k < page.len() implies out.deep_view()[k] == page[k] by {
                assert(out.deep_view()[k] == out@[k].deep_view());
            }
            assert(out.deep_view() =~= page);
        }
        out
    }

    /// All pots in id order past the cursor, capped at the limit (30
    /// when unnamed).
    pub fn list_all_pots(&self, start_after: Option<u64>, limit: Option<u32>) -> (r: Vec<PotResp>)
        requires
            self.wf(),
        ensures
            r.deep_view() == pots_page(self.pots@, start_after, limit),
    {
        let lim: usize = match limit {
            Some(l) => l as usize,
            None => 30,
        };
        let n = self.pots.len();
        let mut i: usize = 0;
        match start_after {
            Some(start) => {
                while i < n && self.pots[i].id <= start
                    invariant
                        0 <= i <= n == self.pots@.len(),
                        forall|k: int| 0 <= k < i ==> (#[trigger] self.pots@[k]).id <= start,
                    decreases n - i,
                {
                    i = i + 1;
                }
                proof {
                    lemma_count_le_boundary(self.pots@, start, i as int);
                }
            },
            None => {
            },
        }
        let ghost s: int = match start_after {
            Some(c) => count_le(self.pots@, c),
            None => 0,
        };
        let ghost page = pots_page(self.pots@, start_after, limit);
        let start_idx = i;
        let mut out: Vec<PotResp> = Vec::new();
        while i < n && out.len() < lim
            invariant
                0 <= start_idx <= i <= n == self.pots@.len(),
                s == start_idx as int,
                s == match start_after {
                    Some(c) => count_le(self.pots@, c),
                    None => 0int,
                },
                lim == match limit {
                    Some(l) => l as int,
                    None => 30int,
                },
                page == pots_page(self.pots@, start_after, limit),
                page.len() == if lim <= n - s {
                    lim as int
                } else {
                    n - s
                },
                out@.len() == i - start_idx,
                out@.len() <= lim,
                forall|k: int| 0 <= k < out@.len() ==> (#[trigger] out@[k])@ == page[k],
            decreases n - i,
        {
            let ghost j = i - start_idx;
            out.push(pot_to_resp(&self.pots[i]));
            proof {
                assert(0 <= j < page.len());
                assert(page[j as int] == spec_pot_resp(self.pots@[s + j]));
                assert(out@[j as int]@ == spec_pot_resp(self.pots@[i as int]));
            }
            i = i + 1;
        }
        proof {
            assert(page.len() == out@.len());
            assert forall|k: int| 0 <= k < page.len() implies out.deep_view()[k] == page[k] by {
                assert(out.deep_view()[k] == out@[k].deep_view());
            }
            assert(out.deep_view() =~= page);
        }
        out
    }

    /// One query dispatch: the engine's whole read-only interface.
    pub fn query(&self, msg: QueryMsg) -> (r: Result<QueryAnswer, ContractError>)
        requires
            self.wf(),
        ensures
            match msg {
                QueryMsg::Config {} => {
                    &&& r is Ok
                    &&& r->Ok_0 matches QueryAnswer::Config(c)
                    &&& r->Ok_0->Config_0@.admin == self.config.admin@
                    &&& r->Ok_0->Config_0@.default_denom == self.config.default_denom@
                },
                QueryMsg::GetPot { id } => if self.has_pot(id) {
                    r == Ok::<QueryAnswer, ContractError>(QueryAnswer::Pot(r->Ok_0->Pot_0))
                        && r->Ok_0->Pot_0@ == spec_pot_resp(self.pot_at(id))
                } else {
                    r == Err::<QueryAnswer, ContractError>(ContractError::PotNotFound)
                },
                QueryMsg::ListPotsByOwner { owner, start_after, limit } => {
                    &&& r is Ok
                    &&& r->Ok_0 matches QueryAnswer::Pots(ps)
                    &&& r->Ok_0->Pots_0.deep_view() == owner_page(
                        *self,
                        owner@,
                        start_after,
                        limit,
                    )
                },
                QueryMsg::ListAllPots { start_after, limit } => {
                    &&& r is Ok
                    &&& r->Ok_0 matches QueryAnswer::Pots(ps)
                    &&& r->Ok_0->Pots_0.deep_view() == pots_page(
                        self.pots@,
                        start_after,
                        limit,
                    )
                },
            },
    {
        match msg {
            QueryMsg::Config {} => Ok(QueryAnswer::Config(self.query_config())),
            QueryMsg::GetPot { id } => match self.get_pot(id) {
                Some(p) => Ok(QueryAnswer::Pot(p)),
                None => Err(ContractError::PotNotFound),
            },
            QueryMsg::ListPotsByOwner { owner, start_after, limit } => Ok(
                QueryAnswer::Pots(self.list_pots_by_owner(owner.as_str(), start_after, limit)),
            ),
            QueryMsg::ListAllPots { start_after, limit } => Ok(
                QueryAnswer::Pots(self.list_all_pots(start_after, limit)),
            ),
        }
    }
}

} // verus!
