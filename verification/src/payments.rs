//! The timed-transfer component: a sender escrows an amount for one
//! recipient, who may claim it before the deadline; after the deadline
//! the sender may take it back.

use vstd::prelude::*;

use crate::host::BankSend;
use crate::host::BankSendView;
use crate::host::Coin;
use crate::host::CoinView;
use crate::host::Env;
use crate::host::Event;
use crate::host::EventView;
use crate::host::MessageInfo;
use crate::host::Response;
use crate::host::ResponseView;
use crate::strings::clone_opt_string;
use crate::strings::dec_of;
use crate::strings::str_eq;
use crate::strings::u128_to_dec;
use crate::strings::u64_to_dec;

verus! {

#[derive(Clone, Debug, PartialEq, Eq)]
pub struct InstantiateMsg {
    pub default_denom: String,
    pub admin: Option<String>,
}

#[derive(Clone, Debug, PartialEq, Eq)]
pub enum ExecuteMsg {
    CreateTransfer {
        recipient: String,
        amount: Coin,
        remark: Option<String>,
        expiry_ts: Option<u64>,
    },
    ClaimTransfer { id: u64 },
    RefundTransfer { id: u64 },
}

#[derive(Clone, Debug, PartialEq, Eq)]
pub enum QueryMsg {
    Config {},
    GetTransfer { id: u64 },
    ListBySender { sender: String, start_after: Option<u64>, limit: Option<u32> },
    ListByRecipient { recipient: String, start_after: Option<u64>, limit: Option<u32> },
}

#[derive(Clone, Debug, PartialEq, Eq)]
pub struct ConfigResp {
    pub admin: String,
    pub default_denom: String,
}

pub struct ConfigRespView {
    pub admin: Seq<char>,
    pub default_denom: Seq<char>,
}

impl View for ConfigResp {
    type V = ConfigRespView;

    open spec fn view(&self) -> ConfigRespView {
        ConfigRespView { admin: self.admin@, default_denom: self.default_denom@ }
    }
}

#[derive(Clone, Debug, PartialEq, Eq)]
pub struct TransferResp {
    pub id: u64,
    pub sender: String,
    pub recipient: String,
    pub amount: Coin,
    pub remark: Option<String>,
    pub expiry_ts: Option<u64>,
    pub status: String,
}

pub struct TransferRespView {
    pub id: u64,
    pub sender: Seq<char>,
    pub recipient: Seq<char>,
    pub amount: CoinView,
    pub remark: Option<Seq<char>>,
    pub expiry_ts: Option<u64>,
    pub status: Seq<char>,
}

impl View for TransferResp {
    type V = TransferRespView;

    open spec fn view(&self) -> TransferRespView {
        TransferRespView {
            id: self.id,
            sender: self.sender@,
            recipient: self.recipient@,
            amount: self.amount@,
            remark: self.remark.deep_view(),
            expiry_ts: self.expiry_ts,
            status: self.status@,
        }
    }
}

impl DeepView for TransferResp {
    type V = TransferRespView;

    open spec fn deep_view(&self) -> TransferRespView {
        self@
    }
}

#[derive(Clone, Debug, PartialEq, Eq)]
pub struct Config {
    pub admin: String,
    pub default_denom: String,
}

#[derive(Clone, Copy, Debug, PartialEq, Eq, Structural)]
pub enum TransferStatus {
    Open,
    Claimed,
    Refunded,
}

/// One timed transfer: escrowed by the sender for the recipient,
/// settled at most once.
#[derive(Clone, Debug, PartialEq, Eq)]
pub struct Transfer {
    pub id: u64,
    pub sender: String,
    pub recipient: String,
    pub amount: Coin,
    pub remark: Option<String>,
    pub expiry_ts: Option<u64>,
    pub status: TransferStatus,
}

/// The typed answer of one query dispatch.
#[derive(Clone, Debug, PartialEq, Eq)]
pub enum QueryAnswer {
    Config(ConfigResp),
    Transfer(TransferResp),
    Transfers(Vec<TransferResp>),
}

#[derive(Clone, Debug, PartialEq, Eq)]
pub enum ContractError {
    Std(String),
    Unauthorized,
    InvalidFunds,
    NotFound,
    AlreadyFinalized,
    NotRecipient,
    NotSender,
    Expired,
    NotExpired,
}

// ---------------------------------------------------------------------
// Events.
// ---------------------------------------------------------------------
pub open spec fn spec_evt_create(
    id: u64,
    sender: Seq<char>,
    recipient: Seq<char>,
    amount: u128,
    denom: Seq<char>,
) -> EventView {
    EventView {
        name: "seimoney.create_transfer"@,
        attributes: seq![
            ("id"@, dec_of(id as nat)),
            ("sender"@, sender),
            ("recipient"@, recipient),
            ("amount"@, dec_of(amount as nat) + denom),
        ],
    }
}

pub fn evt_create(id: u64, sender: &str, recipient: &str, amount: &Coin) -> (r: Event)
    ensures
        r@ == spec_evt_create(id, sender@, recipient@, amount.amount, amount.denom@),
{
    let r = Event::new("seimoney.create_transfer")
        .add_attribute("id", u64_to_dec(id))
        .add_attribute("sender", sender.to_owned())
        .add_attribute("recipient", recipient.to_owned())
        .add_attribute("amount", amount.to_text());
    proof {
        assert(r@.attributes =~= spec_evt_create(
            id,
            sender@,
            recipient@,
            amount.amount,
            amount.denom@,
        ).attributes);
    }
    r
}

pub open spec fn spec_evt_claim(id: u64, recipient: Seq<char>) -> EventView {
    EventView {
        name: "seimoney.claim_transfer"@,
        attributes: seq![("id"@, dec_of(id as nat)), ("recipient"@, recipient)],
    }
}

pub fn evt_claim(id: u64, recipient: &str) -> (r: Event)
    ensures
        r@ == spec_evt_claim(id, recipient@),
{
    let r = Event::new("seimoney.claim_transfer")
        .add_attribute("id", u64_to_dec(id))
        .add_attribute("recipient", recipient.to_owned());
    proof {
        assert(r@.attributes =~= spec_evt_claim(id, recipient@).attributes);
    }
    r
}

pub open spec fn spec_evt_refund(id: u64, sender: Seq<char>) -> EventView {
    EventView {
        name: "seimoney.refund_transfer"@,
        attributes: seq![("id"@, dec_of(id as nat)), ("sender"@, sender)],
    }
}

pub fn evt_refund(id: u64, sender: &str) -> (r: Event)
    ensures
        r@ == spec_evt_refund(id, sender@),
{
    let r = Event::new("seimoney.refund_transfer")
        .add_attribute("id", u64_to_dec(id))
        .add_attribute("sender", sender.to_owned());
    proof {
        assert(r@.attributes =~= spec_evt_refund(id, sender@).attributes);
    }
    r
}

// ---------------------------------------------------------------------
// The engine.
// ---------------------------------------------------------------------
/// The whole persisted state of the timed-transfer component.
pub struct PaymentsEngine {
    pub config: Config,
    pub next_id: u64,
    pub transfers: Vec<Transfer>,
}

pub open spec fn transfers_sorted(ts: Seq<Transfer>) -> bool {
    forall|i: int, j: int| 0 <= i < j < ts.len() ==> #[trigger] ts[i].id < #[trigger] ts[j].id
}

pub open spec fn transfer_ids_below(ts: Seq<Transfer>, next: u64) -> bool {
    forall|i: int| 0 <= i < ts.len() ==> (#[trigger] ts[i]).id < next
}

impl PaymentsEngine {
    /// The engine invariant: established at instantiation and preserved
    /// by every command.
    pub open spec fn wf(self) -> bool {
        &&& transfers_sorted(self.transfers@)
        &&& transfer_ids_below(self.transfers@, self.next_id)
    }

    pub open spec fn has_transfer(self, id: u64) -> bool {
        exists|i: int| 0 <= i < self.transfers@.len() && (#[trigger] self.transfers@[i]).id == id
    }

    pub open spec fn transfer_at(self, id: u64) -> Transfer {
        self.transfers@[transfer_idx(self.transfers@, id)]
    }
}

pub open spec fn transfer_idx(ts: Seq<Transfer>, id: u64) -> int {
    choose|i: int| 0 <= i < ts.len() && (#[trigger] ts[i]).id == id
}

proof fn lemma_transfer_idx(ts: Seq<Transfer>, i: int)
    requires
        transfers_sorted(ts),
        0 <= i < ts.len(),
    ensures
        transfer_idx(ts, ts[i].id) == i,
{
    let id = ts[i].id;
    assert(0 <= i < ts.len() && ts[i].id == id);
    let j = transfer_idx(ts, id);
    if j < i {
        assert(ts[j].id < ts[i].id);
    } else if i < j {
        assert(ts[i].id < ts[j].id);
    }
}

fn find_transfer(ts: &Vec<Transfer>, id: u64) -> (r: Option<usize>)
    ensures
        match r {
            Some(i) => 0 <= i < ts@.len() && ts@[i as int].id == id,
            None => forall|i: int| 0 <= i < ts@.len() ==> (#[trigger] ts@[i]).id != id,
        },
{
    let mut i: usize = 0;
    while i < ts.len()
        invariant
            0 <= i <= ts@.len(),
            forall|j: int| 0 <= j < i ==> (#[trigger] ts@[j]).id != id,
        decreases ts@.len() - i,
    {
        if ts[i].id == id {
            return Some(i);
        }
        i = i + 1;
    }
    None
}

/// The view of an execution result: the response abstracted, the error
/// kept.
pub open spec fn result_view(r: Result<Response, ContractError>) -> Result<
    ResponseView,
    ContractError,
> {
    match r {
        Ok(resp) => Ok(resp@),
        Err(e) => Err(e),
    }
}

/// Whether the attached funds are exactly one positive coin of the
/// given denomination.
pub open spec fn one_fund_ok(funds: Seq<Coin>, denom: Seq<char>) -> bool {
    funds.len() == 1 && funds[0].denom@ == denom && funds[0].amount > 0
}

/// Accepts the attached funds exactly when they are one positive coin
/// of the asked-for denomination, and hands that coin back.
pub fn must_one_fund(info: &MessageInfo, denom: &str) -> (r: Result<Coin, ContractError>)
    ensures
        r is Ok <==> one_fund_ok(info.funds@, denom@),
        r is Ok ==> r->Ok_0@ == info.funds@[0]@,
        r is Err ==> r->Err_0 == ContractError::InvalidFunds,
{
    if info.funds.len() != 1 {
        return Err(ContractError::InvalidFunds);
    }
    if !str_eq(info.funds[0].denom.as_str(), denom) {
        return Err(ContractError::InvalidFunds);
    }
    if info.funds[0].amount == 0 {
        return Err(ContractError::InvalidFunds);
    }
    Ok(info.funds[0].clone_coin())
}

impl PaymentsEngine {
    /// Sets up an empty engine: the administrator (the sender unless
    /// named) and the accepted denomination.
    pub fn instantiate(info: &MessageInfo, msg: InstantiateMsg) -> (r: (PaymentsEngine, Response))
        ensures
            r.0.wf(),
            r.0.config.admin@ == match msg.admin {
                Some(a) => a@,
                None => info.sender@,
            },
            r.0.config.default_denom@ == msg.default_denom@,
            r.0.next_id == 1,
            r.0.transfers@.len() == 0,
            r.1@.messages.len() == 0,
            r.1@.events.len() == 0,
            r.1@.attributes == seq![("action"@, "instantiate"@)],
    {
        let admin = match msg.admin {
            Some(a) => a,
            None => info.sender.clone(),
        };
        let engine = PaymentsEngine {
            config: Config { admin, default_denom: msg.default_denom },
            next_id: 1,
            transfers: Vec::new(),
        };
        let resp = Response::new().add_attribute("action", "instantiate");
        (engine, resp)
    }
}

/// Which failure, if any, creating a transfer meets: the attached funds
/// must be exactly the escrowed amount, and the deadline (if any) must
/// lie ahead.
pub open spec fn create_check(
    pre: PaymentsEngine,
    funds: Seq<Coin>,
    amount: Coin,
    expiry_ts: Option<u64>,
    now: u64,
) -> Option<ContractError> {
    if !one_fund_ok(funds, amount.denom@) {
        Some(ContractError::InvalidFunds)
    } else if funds[0].amount != amount.amount {
        Some(ContractError::InvalidFunds)
    } else if expiry_ts is Some && expiry_ts->0 <= now {
        Some(ContractError::Expired)
    } else {
        None
    }
}

/// Everything creating a transfer does.
pub open spec fn create_rel(
    pre: PaymentsEngine,
    post: PaymentsEngine,
    now: u64,
    sender: Seq<char>,
    funds: Seq<Coin>,
    recipient: String,
    amount: Coin,
    remark: Option<String>,
    expiry_ts: Option<u64>,
    r: Result<ResponseView, ContractError>,
) -> bool {
    &&& post.config == pre.config
    &&& match create_check(pre, funds, amount, expiry_ts, now) {
        Some(e) => r == Err::<ResponseView, ContractError>(e) && post == pre,
        None => {
            &&& post.next_id == pre.next_id + 1
            &&& post.transfers@.len() == pre.transfers@.len() + 1
            &&& post.transfers@.subrange(0, pre.transfers@.len() as int) == pre.transfers@
            &&& ({
                let t = post.transfers@.last();
                &&& t.id == pre.next_id
                &&& t.sender@ == sender
                &&& t.recipient == recipient
                &&& t.amount == amount
                &&& t.remark == remark
                &&& t.expiry_ts == expiry_ts
                &&& t.status == TransferStatus::Open
            })
            &&& r == Ok::<ResponseView, ContractError>(
                ResponseView {
                    messages: Seq::empty(),
                    attributes: seq![("action"@, "create_transfer"@)],
                    events: seq![
                        spec_evt_create(
                            pre.next_id,
                            sender,
                            recipient@,
                            amount.amount,
                            amount.denom@,
                        ),
                    ],
                },
            )
        },
    }
}

/// Everything a claim does: the recipient settles an open, unexpired
/// transfer and receives the escrowed amount.
pub open spec fn claim_rel(
    pre: PaymentsEngine,
    post: PaymentsEngine,
    now: u64,
    sender: Seq<char>,
    id: u64,
    r: Result<ResponseView, ContractError>,
) -> bool {
    &&& post.config == pre.config
    &&& post.next_id == pre.next_id
    &&& if !pre.has_transfer(id) {
        r == Err::<ResponseView, ContractError>(ContractError::NotFound) && post == pre
    } else {
        let t = pre.transfer_at(id);
        let idx = transfer_idx(pre.transfers@, id);
        if !(t.status is Open) {
            r == Err::<ResponseView, ContractError>(ContractError::AlreadyFinalized) && post
                == pre
        } else if t.expiry_ts is Some && t.expiry_ts->0 <= now {
            r == Err::<ResponseView, ContractError>(ContractError::Expired) && post == pre
        } else if sender != t.recipient@ {
            r == Err::<ResponseView, ContractError>(ContractError::NotRecipient) && post == pre
        } else {
            &&& post.transfers@ == pre.transfers@.update(
                idx,
                Transfer { status: TransferStatus::Claimed, ..t },
            )
            &&& r == Ok::<ResponseView, ContractError>(
                ResponseView {
                    messages: seq![
                        BankSendView { to_address: t.recipient@, amount: seq![t.amount@] },
                    ],
                    attributes: seq![("action"@, "claim_transfer"@)],
                    events: seq![spec_evt_claim(id, t.recipient@)],
                },
            )
        }
    }
}

/// Everything a refund does: after the deadline the sender takes the
/// escrowed amount back from an open transfer.
pub open spec fn refund_rel(
    pre: PaymentsEngine,
    post: PaymentsEngine,
    now: u64,
    sender: Seq<char>,
    id: u64,
    r: Result<ResponseView, ContractError>,
) -> bool {
    &&& post.config == pre.config
    &&& post.next_id == pre.next_id
    &&& if !pre.has_transfer(id) {
        r == Err::<ResponseView, ContractError>(ContractError::NotFound) && post == pre
    } else {
        let t = pre.transfer_at(id);
        let idx = transfer_idx(pre.transfers@, id);
        if !(t.status is Open) {
            r == Err::<ResponseView, ContractError>(ContractError::AlreadyFinalized) && post
                == pre
        } else if t.expiry_ts is Some && t.expiry_ts->0 > now {
            r == Err::<ResponseView, ContractError>(ContractError::NotExpired) && post == pre
        } else if sender != t.sender@ {
            r == Err::<ResponseView, ContractError>(ContractError::NotSender) && post == pre
        } else {
            &&& post.transfers@ == pre.transfers@.update(
                idx,
                Transfer { status: TransferStatus::Refunded, ..t },
            )
            &&& r == Ok::<ResponseView, ContractError>(
                ResponseView {
                    messages: seq![
                        BankSendView { to_address: t.sender@, amount: seq![t.amount@] },
                    ],
                    attributes: seq![("action"@, "refund_transfer"@)],
                    events: seq![spec_evt_refund(id, t.sender@)],
                },
            )
        }
    }
}

impl PaymentsEngine {
    /// Escrows the attached funds as a new transfer for `recipient`.
    /// The attached funds must be exactly one coin equal to `amount`,
    /// and the deadline, if any, must still lie ahead.
    pub fn exec_create(
        &mut self,
        env: &Env,
        info: &MessageInfo,
        recipient: String,
        amount: Coin,
        remark: Option<String>,
        expiry_ts: Option<u64>,
    ) -> (r: Result<Response, ContractError>)
        requires
            old(self).wf(),
            old(self).next_id < u64::MAX,
        ensures
            final(self).wf(),
            create_rel(
                *old(self),
                *final(self),
                env.block_time.spec_seconds(),
                info.sender@,
                info.funds@,
                recipient,
                amount,
                remark,
                expiry_ts,
                result_view(r),
            ),
    {
        let sent = match must_one_fund(info, amount.denom.as_str()) {
            Ok(c) => c,
            Err(e) => {
                return Err(e);
            },
        };
        if sent.amount != amount.amount {
            return Err(ContractError::InvalidFunds);
        }
        if let Some(ts) = expiry_ts {
            if ts <= env.block_time.seconds() {
                return Err(ContractError::Expired);
            }
        }
        let id = self.next_id;
        let event = evt_create(id, info.sender.as_str(), recipient.as_str(), &amount);
        let transfer = Transfer {
            id,
            sender: info.sender.clone(),
            recipient,
            amount,
            remark,
            expiry_ts,
            status: TransferStatus::Open,
        };
        self.transfers.push(transfer);
        self.next_id = id + 1;
        let resp = Response::new().add_event(event).add_attribute("action", "create_transfer");
        proof {
            assert(self.transfers@.subrange(0, old(self).transfers@.len() as int) =~= old(
                self,
            ).transfers@);
            assert(resp@.messages =~= Seq::<BankSendView>::empty());
            assert(resp@.attributes =~= seq![("action"@, "create_transfer"@)]);
            assert(resp@.events =~= seq![event@]);
        }
        Ok(resp)
    }

    /// Settles an open transfer to its recipient before the deadline.
    pub fn exec_claim(&mut self, env: &Env, info: &MessageInfo, id: u64) -> (r: Result<
        Response,
        ContractError,
    >)
        requires
            old(self).wf(),
        ensures
            final(self).wf(),
            claim_rel(
                *old(self),
                *final(self),
                env.block_time.spec_seconds(),
                info.sender@,
                id,
                result_view(r),
            ),
    {
        let i = match find_transfer(&self.transfers, id) {
            Some(i) => i,
            None => {
                return Err(ContractError::NotFound);
            },
        };
        proof {
            lemma_transfer_idx(self.transfers@, i as int);
        }
        if !matches!(self.transfers[i].status, TransferStatus::Open) {
            return Err(ContractError::AlreadyFinalized);
        }
        if let Some(ts) = self.transfers[i].expiry_ts {
            if ts <= env.block_time.seconds() {
                return Err(ContractError::Expired);
            }
        }
        if !str_eq(info.sender.as_str(), self.transfers[i].recipient.as_str()) {
            return Err(ContractError::NotRecipient);
        }
        let ghost t = self.transfers@[i as int];
        let mut transfer = self.transfers.remove(i);
        transfer.status = TransferStatus::Claimed;
        let recipient = transfer.recipient.clone();
        let coin = transfer.amount.clone_coin();
        self.transfers.insert(i, transfer);
        proof {
            assert(self.transfers@ =~= old(self).transfers@.update(
                i as int,
                Transfer { status: TransferStatus::Claimed, ..t },
            ));
        }
        let event = evt_claim(id, recipient.as_str());
        let mut coins: Vec<Coin> = Vec::new();
        coins.push(coin);
        let bank = BankSend { to_address: recipient, amount: coins };
        proof {
            assert(bank@.amount =~= seq![t.amount@]);
        }
        let resp = Response::new().add_message(bank).add_event(event).add_attribute(
            "action",
            "claim_transfer",
        );
        proof {
            assert(resp@.messages =~= seq![bank@]);
            assert(resp@.attributes =~= seq![("action"@, "claim_transfer"@)]);
            assert(resp@.events =~= seq![event@]);
        }
        Ok(resp)
    }

    /// Returns an open transfer to its sender once the deadline has
    /// passed (a transfer without a deadline may be refunded at once).
    pub fn exec_refund(&mut self, env: &Env, info: &MessageInfo, id: u64) -> (r: Result<
        Response,
        ContractError,
    >)
        requires
            old(self).wf(),
        ensures
            final(self).wf(),
            refund_rel(
                *old(self),
                *final(self),
                env.block_time.spec_seconds(),
                info.sender@,
                id,
                result_view(r),
            ),
    {
        let i = match find_transfer(&self.transfers, id) {
            Some(i) => i,
            None => {
                return Err(ContractError::NotFound);
            },
        };
        proof {
            lemma_transfer_idx(self.transfers@, i as int);
        }
        if !matches!(self.transfers[i].status, TransferStatus::Open) {
            return Err(ContractError::AlreadyFinalized);
        }
        if let Some(ts) = self.transfers[i].expiry_ts {
            if ts > env.block_time.seconds() {
                return Err(ContractError::NotExpired);
            }
        }
        if !str_eq(info.sender.as_str(), self.transfers[i].sender.as_str()) {
            return Err(ContractError::NotSender);
        }
        let ghost t = self.transfers@[i as int];
        let mut transfer = self.transfers.remove(i);
        transfer.status = TransferStatus::Refunded;
        let sender = transfer.sender.clone();
        let coin = transfer.amount.clone_coin();
        self.transfers.insert(i, transfer);
        proof {
            assert(self.transfers@ =~= old(self).transfers@.update(
                i as int,
                Transfer { status: TransferStatus::Refunded, ..t },
            ));
        }
        let event = evt_refund(id, sender.as_str());
        let mut coins: Vec<Coin> = Vec::new();
        coins.push(coin);
        let bank = BankSend { to_address: sender, amount: coins };
        proof {
            assert(bank@.amount =~= seq![t.amount@]);
        }
        let resp = Response::new().add_message(bank).add_event(event).add_attribute(
            "action",
            "refund_transfer",
        );
        proof {
            assert(resp@.messages =~= seq![bank@]);
            assert(resp@.attributes =~= seq![("action"@, "refund_transfer"@)]);
            assert(resp@.events =~= seq![event@]);
        }
        Ok(resp)
    }

    /// One command dispatch: the engine's whole mutating interface.
    pub fn execute(&mut self, env: &Env, info: &MessageInfo, msg: ExecuteMsg) -> (r: Result<
        Response,
        ContractError,
    >)
        requires
            old(self).wf(),
            msg is CreateTransfer ==> old(self).next_id < u64::MAX,
        ensures
            final(self).wf(),
            match msg {
                ExecuteMsg::CreateTransfer { recipient, amount, remark, expiry_ts } => create_rel(
                    *old(self),
                    *final(self),
                    env.block_time.spec_seconds(),
                    info.sender@,
                    info.funds@,
                    recipient,
                    amount,
                    remark,
                    expiry_ts,
                    result_view(r),
                ),
                ExecuteMsg::ClaimTransfer { id } => claim_rel(
                    *old(self),
                    *final(self),
                    env.block_time.spec_seconds(),
                    info.sender@,
                    id,
                    result_view(r),
                ),
                ExecuteMsg::RefundTransfer { id } => refund_rel(
                    *old(self),
                    *final(self),
                    env.block_time.spec_seconds(),
                    info.sender@,
                    id,
                    result_view(r),
                ),
            },
    {
        match msg {
            ExecuteMsg::CreateTransfer { recipient, amount, remark, expiry_ts } => self
                .exec_create(env, info, recipient, amount, remark, expiry_ts),
            ExecuteMsg::ClaimTransfer { id } => self.exec_claim(env, info, id),
            ExecuteMsg::RefundTransfer { id } => self.exec_refund(env, info, id),
        }
    }
}

// ---------------------------------------------------------------------
// Queries.
// ---------------------------------------------------------------------
/// The label a status carries in a transfer answer.
pub open spec fn status_text(s: TransferStatus) -> Seq<char> {
    match s {
        TransferStatus::Open => "Open"@,
        TransferStatus::Claimed => "Claimed"@,
        TransferStatus::Refunded => "Refunded"@,
    }
}

fn status_text_of(s: TransferStatus) -> (r: String)
    ensures
        r@ == status_text(s),
{
    match s {
        TransferStatus::Open => String::from_str("Open"),
        TransferStatus::Claimed => String::from_str("Claimed"),
        TransferStatus::Refunded => String::from_str("Refunded"),
    }
}

/// The ghost shape of a transfer answer.
pub open spec fn spec_transfer_resp(t: Transfer) -> TransferRespView {
    TransferRespView {
        id: t.id,
        sender: t.sender@,
        recipient: t.recipient@,
        amount: t.amount@,
        remark: t.remark.deep_view(),
        expiry_ts: t.expiry_ts,
        status: status_text(t.status),
    }
}

fn transfer_to_resp(t: &Transfer) -> (r: TransferResp)
    ensures
        r@ == spec_transfer_resp(*t),
{
    TransferResp {
        id: t.id,
        sender: t.sender.clone(),
        recipient: t.recipient.clone(),
        amount: t.amount.clone_coin(),
        remark: clone_opt_string(&t.remark),
        expiry_ts: t.expiry_ts,
        status: status_text_of(t.status),
    }
}

/// Whether a transfer belongs on a page: past the cursor and matching
/// the account in the asked-for role.
pub open spec fn row_selected(t: Transfer, by_sender: bool, who: Seq<char>, start: Option<u64>) -> bool {
    &&& (start is Some ==> t.id > start->0)
    &&& (if by_sender {
        t.sender@ == who
    } else {
        t.recipient@ == who
    })
}

/// The transfers an account is party to, in id order, past the cursor.
pub open spec fn selected_transfers(
    ts: Seq<Transfer>,
    by_sender: bool,
    who: Seq<char>,
    start: Option<u64>,
) -> Seq<Transfer>
    decreases ts.len(),
{
    if ts.len() == 0 {
        Seq::empty()
    } else {
        selected_transfers(ts.drop_last(), by_sender, who, start) + if row_selected(
            ts.last(),
            by_sender,
            who,
            start,
        ) {
            seq![ts.last()]
        } else {
            Seq::empty()
        }
    }
}

/// The effective page cap of the role listings: the limit (10 when
/// unnamed), never more than 30.
pub open spec fn role_page_limit(limit: Option<u32>) -> int {
    let l: int = match limit {
        Some(l) => l as int,
        None => 10,
    };
    if l <= 30 {
        l
    } else {
        30
    }
}

/// The page of a role listing: the first `limit` selected transfers.
pub open spec fn role_page(
    ts: Seq<Transfer>,
    by_sender: bool,
    who: Seq<char>,
    start: Option<u64>,
    limit: Option<u32>,
) -> Seq<TransferRespView> {
    let sel = selected_transfers(ts, by_sender, who, start);
    let n = if role_page_limit(limit) <= sel.len() {
        role_page_limit(limit)
    } else {
        sel.len() as int
    };
    Seq::new(n as nat, |j: int| spec_transfer_resp(sel[j]))
}

fn list_role_page(
    ts: &Vec<Transfer>,
    by_sender: bool,
    who: &str,
    start_after: Option<u64>,
    limit: Option<u32>,
) -> (r: Vec<TransferResp>)
    ensures
        r.deep_view() == role_page(ts@, by_sender, who@, start_after, limit),
{
    let lim: usize = match limit {
        Some(l) => {
            let l = l as usize;
            if l <= 30 {
                l
            } else {
                30
            }
        },
        None => 10,
    };
    let mut out: Vec<TransferResp> = Vec::new();
    let mut i: usize = 0;
    let n = ts.len();
    while i < n
        invariant
            0 <= i <= n == ts@.len(),
            lim == role_page_limit(limit),
            out@.len() == ({
                let sel = selected_transfers(ts@.subrange(0, i as int), by_sender, who@, start_after);
                if lim <= sel.len() {
                    lim as int
                } else {
                    sel.len() as int
                }
            }),
            forall|k: int|
                0 <= k < out@.len() ==> (#[trigger] out@[k])@ == spec_transfer_resp(
                    selected_transfers(ts@.subrange(0, i as int), by_sender, who@, start_after)[k],
                ),
        decreases n - i,
    {
        let ghost prefix = ts@.subrange(0, i as int);
        let ghost sel = selected_transfers(prefix, by_sender, who@, start_after);
        let past_cursor = match start_after {
            Some(s) => ts[i].id > s,
            None => true,
        };
        let role_match = if by_sender {
            str_eq(ts[i].sender.as_str(), who)
        } else {
            str_eq(ts[i].recipient.as_str(), who)
        };
        proof {
            assert(ts@.subrange(0, i + 1).drop_last() =~= prefix);
            assert(ts@.subrange(0, i + 1).last() == ts@[i as int]);
        }
        if past_cursor && role_match && out.len() < lim {
            out.push(transfer_to_resp(&ts[i]));
            proof {
                let sel2 = selected_transfers(ts@.subrange(0, i + 1), by_sender, who@, start_after);
                assert(sel2 =~= sel + seq![ts@[i as int]]);
                assert(out@[out@.len() - 1]@ == spec_transfer_resp(sel2[sel2.len() - 1]));
            }
        } else {
            proof {
                let sel2 = selected_transfers(ts@.subrange(0, i + 1), by_sender, who@, start_after);
                if row_selected(ts@[i as int], by_sender, who@, start_after) {
                    assert(sel2 =~= sel + seq![ts@[i as int]]);
                } else {
                    assert(sel2 =~= sel);
                }
            }
        }
        i = i + 1;
    }
    proof {
        assert(ts@.subrange(0, n as int) =~= ts@);
        let sel = selected_transfers(ts@, by_sender, who@, start_after);
        let page = role_page(ts@, by_sender, who@, start_after, limit);
        assert(page.len() == out@.len());
        assert forall|k: int| 0 <= k < page.len() implies out.deep_view()[k] == page[k] by {
            assert(out.deep_view()[k] == out@[k].deep_view());
            assert(page[k] == spec_transfer_resp(sel[k]));
        }
        assert(out.deep_view() =~= page);
    }
    out
}

impl PaymentsEngine {
    /// The configuration, as a query answer.
    pub fn query_config(&self) -> (r: ConfigResp)
        ensures
            r@.admin == self.config.admin@,
            r@.default_denom == self.config.default_denom@,
    {
        ConfigResp {
            admin: self.config.admin.clone(),
            default_denom: self.config.default_denom.clone(),
        }
    }

    /// One transfer by id, or nothing when the id is unknown.
    pub fn get_transfer(&self, id: u64) -> (r: Option<TransferResp>)
        requires
            self.wf(),
        ensures
            r is Some <==> self.has_transfer(id),
            r is Some ==> r->0@ == spec_transfer_resp(self.transfer_at(id)),
    {
        match find_transfer(&self.transfers, id) {
            Some(i) => {
                proof {
                    lemma_transfer_idx(self.transfers@, i as int);
                }
                Some(transfer_to_resp(&self.transfers[i]))
            },
            None => None,
        }
    }

    /// The transfers sent by an account, in id order past the cursor,
    /// capped at the limit (10 unnamed, 30 at most).
    pub fn list_by_sender(&self, sender: &str, start_after: Option<u64>, limit: Option<u32>) -> (r:
        Vec<TransferResp>)
        ensures
            r.deep_view() == role_page(self.transfers@, true, sender@, start_after, limit),
    {
        list_role_page(&self.transfers, true, sender, start_after, limit)
    }

    /// The transfers addressed to an account, in id order past the
    /// cursor, capped at the limit (10 unnamed, 30 at most).
    pub fn list_by_recipient(
        &self,
        recipient: &str,
        start_after: Option<u64>,
        limit: Option<u32>,
    ) -> (r: Vec<TransferResp>)
        ensures
            r.deep_view() == role_page(self.transfers@, false, recipient@, start_after, limit),
    {
        list_role_page(&self.transfers, false, recipient, start_after, limit)
    }

    /// One query dispatch: the engine's whole read-only interface.
    pub fn query(&self, msg: QueryMsg) -> (r: Result<QueryAnswer, ContractError>)
        requires
            self.wf(),
        ensures
            match msg {
                QueryMsg::Config {} => {
                    &&& r is Ok
                    &&& r->Ok_0 matches QueryAnswer::Config(c)
                    &&& r->Ok_0->Config_0@.admin == self.config.admin@
                    &&& r->Ok_0->Config_0@.default_denom == self.config.default_denom@
                },
                QueryMsg::GetTransfer { id } => if self.has_transfer(id) {
                    r == Ok::<QueryAnswer, ContractError>(
                        QueryAnswer::Transfer(r->Ok_0->Transfer_0),
                    ) && r->Ok_0->Transfer_0@ == spec_transfer_resp(self.transfer_at(id))
                } else {
                    r == Err::<QueryAnswer, ContractError>(ContractError::NotFound)
                },
                QueryMsg::ListBySender { sender, start_after, limit } => {
                    &&& r is Ok
                    &&& r->Ok_0 matches QueryAnswer::Transfers(ts)
                    &&& r->Ok_0->Transfers_0.deep_view() == role_page(
                        self.transfers@,
                        true,
                        sender@,
                        start_after,
                        limit,
                    )
                },
                QueryMsg::ListByRecipient { recipient, start_after, limit } => {
                    &&& r is Ok
                    &&& r->Ok_0 matches QueryAnswer::Transfers(ts)
                    &&& r->Ok_0->Transfers_0.deep_view() == role_page(
                        self.transfers@,
                        false,
                        recipient@,
                        start_after,
                        limit,
                    )
                },
            },
    {
        match msg {
            QueryMsg::Config {} => Ok(QueryAnswer::Config(self.query_config())),
            QueryMsg::GetTransfer { id } => match self.get_transfer(id) {
                Some(t) => Ok(QueryAnswer::Transfer(t)),
                None => Err(ContractError::NotFound),
            },
            QueryMsg::ListBySender { sender, start_after, limit } => Ok(
                QueryAnswer::Transfers(
                    self.list_by_sender(sender.as_str(), start_after, limit),
                ),
            ),
            QueryMsg::ListByRecipient { recipient, start_after, limit } => Ok(
                QueryAnswer::Transfers(
                    self.list_by_recipient(recipient.as_str(), start_after, limit),
                ),
            ),
        }
    }
}

} // verus!
