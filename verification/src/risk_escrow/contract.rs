//! The escrow case engine itself: command handlers, queries, the engine
//! invariant, and the laws proved about the case lifecycle.

use vstd::prelude::*;

use crate::host::BankSend;
use crate::host::BankSendView;
use crate::host::Coin;
use crate::host::CoinView;
use crate::host::Env;
use crate::host::MessageInfo;
use crate::host::Response;
use crate::host::ResponseView;
use crate::strings::clone_string_vec;
use crate::strings::dec_of;
use crate::strings::seq_has_str;
use crate::strings::str_eq;
use crate::strings::u64_to_dec;
use crate::strings::contains_str;
use crate::risk_escrow::error::ContractError;
use crate::risk_escrow::events::evt_approve;
use crate::risk_escrow::events::evt_dispute;
use crate::risk_escrow::events::evt_open_case;
use crate::risk_escrow::events::evt_refund;
use crate::risk_escrow::events::evt_release;
use crate::risk_escrow::events::evt_resolve;
use crate::risk_escrow::events::spec_evt_approve;
use crate::risk_escrow::events::spec_evt_dispute;
use crate::risk_escrow::events::spec_evt_open_case;
use crate::risk_escrow::events::spec_evt_refund;
use crate::risk_escrow::events::spec_evt_release;
use crate::risk_escrow::events::spec_evt_resolve;
use crate::risk_escrow::msg::CaseResp;
use crate::risk_escrow::msg::CaseRespView;
use crate::risk_escrow::msg::CaseStatus;
use crate::risk_escrow::msg::ConfigResp;
use crate::risk_escrow::msg::EscrowModel;
use crate::risk_escrow::msg::ExecuteMsg;
use crate::risk_escrow::msg::InstantiateMsg;
use crate::risk_escrow::msg::QueryAnswer;
use crate::risk_escrow::msg::QueryMsg;
use crate::risk_escrow::msg::Resolution;
use crate::strings::clone_opt_string;
use crate::risk_escrow::state::Case;
use crate::risk_escrow::state::Config;
use crate::risk_escrow::state::ReputationEntry;

verus! {

/// The whole persisted state of the escrow component.
pub struct EscrowEngine {
    pub config: Config,
    pub next_case_id: u64,
    pub cases: Vec<Case>,
    pub reputation: Vec<ReputationEntry>,
}

/// Per-case well-formedness: at least two parties, and approvals that
/// are distinct parties.
pub open spec fn case_wf(c: Case) -> bool {
    &&& c.parties@.len() >= 2
    &&& forall|i: int, j: int|
        0 <= i < j < c.approvals@.len() ==> (#[trigger] c.approvals@[i])@
            != (#[trigger] c.approvals@[j])@
    &&& forall|i: int|
        0 <= i < c.approvals@.len() ==> seq_has_str(c.parties@, (#[trigger] c.approvals@[i])@)
}

pub open spec fn cases_sorted(cases: Seq<Case>) -> bool {
    forall|i: int, j: int|
        0 <= i < j < cases.len() ==> #[trigger] cases[i].id < #[trigger] cases[j].id
}

pub open spec fn case_ids_below(cases: Seq<Case>, next: u64) -> bool {
    forall|i: int| 0 <= i < cases.len() ==> (#[trigger] cases[i]).id < next
}

impl EscrowEngine {
    /// The engine invariant: established at instantiation and preserved
    /// by every command.
    pub open spec fn wf(self) -> bool {
        &&& cases_sorted(self.cases@)
        &&& case_ids_below(self.cases@, self.next_case_id)
        &&& forall|i: int| 0 <= i < self.cases@.len() ==> case_wf(#[trigger] self.cases@[i])
    }

    pub open spec fn has_case(self, id: u64) -> bool {
        exists|i: int| 0 <= i < self.cases@.len() && (#[trigger] self.cases@[i]).id == id
    }

    pub open spec fn case_at(self, id: u64) -> Case {
        self.cases@[case_idx(self.cases@, id)]
    }
}

pub open spec fn case_idx(cases: Seq<Case>, id: u64) -> int {
    choose|i: int| 0 <= i < cases.len() && (#[trigger] cases[i]).id == id
}

/// In a sorted case list, an id picks out exactly one index.
proof fn lemma_case_idx(cases: Seq<Case>, i: int)
    requires
        cases_sorted(cases),
        0 <= i < cases.len(),
    ensures
        case_idx(cases, cases[i].id) == i,
{
    let id = cases[i].id;
    assert(0 <= i < cases.len() && cases[i].id == id);
    let j = case_idx(cases, id);
    if j < i {
        assert(cases[j].id < cases[i].id);
    } else if i < j {
        assert(cases[i].id < cases[j].id);
    }
}

/// Linear lookup of a case by id.
fn find_case(cases: &Vec<Case>, id: u64) -> (r: Option<usize>)
    ensures
        match r {
            Some(i) => 0 <= i < cases@.len() && cases@[i as int].id == id,
            None => forall|i: int| 0 <= i < cases@.len() ==> (#[trigger] cases@[i]).id != id,
        },
{
    let mut i: usize = 0;
    while i < cases.len()
        invariant
            0 <= i <= cases@.len(),
            forall|j: int| 0 <= j < i ==> (#[trigger] cases@[j]).id != id,
        decreases cases@.len() - i,
    {
        if cases[i].id == id {
            return Some(i);
        }
        i = i + 1;
    }
    None
}

// ---------------------------------------------------------------------
// The authorization models.
// ---------------------------------------------------------------------
/// Whether the model carries a first-stage rule to read a required
/// count from.
pub open spec fn model_has_rule(m: EscrowModel) -> bool {
    match m {
        EscrowModel::MultiSig { .. } => true,
        EscrowModel::TimeTiered { stages } => stages@.len() > 0,
        EscrowModel::Milestones { steps } => steps@.len() > 0,
    }
}

/// The approvals needed for the Open to Approved transition: the
/// threshold, or the first stage's or step's required count.
pub open spec fn required_approvals(m: EscrowModel) -> u32 {
    match m {
        EscrowModel::MultiSig { threshold } => threshold,
        EscrowModel::TimeTiered { stages } => stages@[0].required_approvals,
        EscrowModel::Milestones { steps } => steps@[0].required_approvals,
    }
}

/// The label a model carries in the case-opened event.
pub open spec fn model_text(m: EscrowModel) -> Seq<char> {
    match m {
        EscrowModel::MultiSig { threshold } => "MultiSig("@ + dec_of(threshold as nat) + ")"@,
        EscrowModel::TimeTiered { stages } => "TimeTiered("@ + dec_of(stages@.len() as nat)
            + ")"@,
        EscrowModel::Milestones { steps } => "Milestones("@ + dec_of(steps@.len() as nat) + ")"@,
    }
}

fn model_text_of(m: &EscrowModel) -> (r: String)
    ensures
        r@ == model_text(*m),
{
    match m {
        EscrowModel::MultiSig { threshold } => {
            let mut t = String::from_str("MultiSig(");
            t.append(u64_to_dec(*threshold as u64).as_str());
            t.append(")");
            t
        },
        EscrowModel::TimeTiered { stages } => {
            let mut t = String::from_str("TimeTiered(");
            t.append(u64_to_dec(stages.len() as u64).as_str());
            t.append(")");
            t
        },
        EscrowModel::Milestones { steps } => {
            let mut t = String::from_str("Milestones(");
            t.append(u64_to_dec(steps.len() as u64).as_str());
            t.append(")");
            t
        },
    }
}

// ---------------------------------------------------------------------
// Instantiation.
// ---------------------------------------------------------------------
impl EscrowEngine {
    /// Sets up an empty engine: the administrator (the sender unless
    /// named), the accepted denomination, and a minimum approval
    /// threshold (2 unless named).
    pub fn instantiate(info: &MessageInfo, msg: InstantiateMsg) -> (r: (EscrowEngine, Response))
        ensures
            r.0.wf(),
            r.0.config.admin@ == match msg.admin {
                Some(a) => a@,
                None => info.sender@,
            },
            r.0.config.default_denom@ == msg.default_denom@,
            r.0.config.min_approval_threshold == msg.min_approval_threshold.unwrap_or(2),
            r.0.next_case_id == 1,
            r.0.cases@.len() == 0,
            r.0.reputation@.len() == 0,
            r.1@.messages.len() == 0,
            r.1@.events.len() == 0,
            r.1@.attributes == seq![("action"@, "instantiate"@)],
    {
        let admin = match msg.admin {
            Some(a) => a,
            None => info.sender.clone(),
        };
        let min_approval_threshold = match msg.min_approval_threshold {
            Some(t) => t,
            None => 2,
        };
        let engine = EscrowEngine {
            config: Config { admin, default_denom: msg.default_denom, min_approval_threshold },
            next_case_id: 1,
            cases: Vec::new(),
            reputation: Vec::new(),
        };
        let resp = Response::new().add_attribute("action", "instantiate");
        (engine, resp)
    }
}

/// The view of an execution result: the response abstracted, the error
/// kept.
pub open spec fn result_view(r: Result<Response, ContractError>) -> Result<
    ResponseView,
    ContractError,
> {
    match r {
        Ok(resp) => Ok(resp@),
        Err(e) => Err(e),
    }
}

// ---------------------------------------------------------------------
// Opening a case.
// ---------------------------------------------------------------------
/// Which failure, if any, opening a case meets, in the order the checks
/// run. The deadline must lie strictly after the current block time.
pub open spec fn open_case_check(
    pre: EscrowEngine,
    parties: Seq<String>,
    amount: Coin,
    expiry_ts: Option<u64>,
    now: u64,
) -> Option<ContractError> {
    if amount.denom@ != pre.config.default_denom@ {
        Some(ContractError::InvalidDenom)
    } else if amount.amount == 0 {
        Some(ContractError::InvalidAmount)
    } else if parties.len() < 2 {
        Some(ContractError::InvalidParty)
    } else if expiry_ts is Some && expiry_ts->0 <= now {
        Some(ContractError::CaseExpired)
    } else {
        None
    }
}

/// Everything opening a case does, as a relation between the engine
/// before and after.
pub open spec fn open_case_rel(
    pre: EscrowEngine,
    post: EscrowEngine,
    now: u64,
    parties: Vec<String>,
    amount: Coin,
    model: EscrowModel,
    expiry_ts: Option<u64>,
    remark: Option<String>,
    r: Result<ResponseView, ContractError>,
) -> bool {
    &&& post.config == pre.config
    &&& post.reputation == pre.reputation
    &&& match open_case_check(pre, parties@, amount, expiry_ts, now) {
        Some(e) => r == Err::<ResponseView, ContractError>(e) && post == pre,
        None => {
            &&& post.next_case_id == pre.next_case_id + 1
            &&& post.cases@.len() == pre.cases@.len() + 1
            &&& post.cases@.subrange(0, pre.cases@.len() as int) == pre.cases@
            &&& ({
                let c = post.cases@.last();
                &&& c.id == pre.next_case_id
                &&& c.parties == parties
                &&& c.amount == amount
                &&& c.model == model
                &&& c.expiry_ts == expiry_ts
                &&& c.remark == remark
                &&& c.created_at == now
                &&& c.status == CaseStatus::Open
                &&& c.approvals@.len() == 0
                &&& c.dispute_reason is None
                &&& c.resolution is None
            })
            &&& r == Ok::<ResponseView, ContractError>(
                ResponseView {
                    messages: Seq::empty(),
                    attributes: seq![("action"@, "open_case"@)],
                    events: seq![
                        spec_evt_open_case(
                            pre.next_case_id,
                            parties@.map_values(|s: String| s@),
                            amount.amount,
                            amount.denom@,
                            model_text(model),
                        ),
                    ],
                },
            )
        },
    }
}

impl EscrowEngine {
    /// Opens a case: at least two parties, a positive amount in the
    /// configured denomination, and a deadline (if any) still ahead.
    /// The custodied amount is conceptually locked from here on.
    pub fn exec_open_case(
        &mut self,
        env: &Env,
        info: &MessageInfo,
        parties: Vec<String>,
        amount: Coin,
        model: EscrowModel,
        expiry_ts: Option<u64>,
        remark: Option<String>,
    ) -> (r: Result<Response, ContractError>)
        requires
            old(self).wf(),
            old(self).next_case_id < u64::MAX,
        ensures
            final(self).wf(),
            open_case_rel(
                *old(self),
                *final(self),
                env.block_time.spec_seconds(),
                parties,
                amount,
                model,
                expiry_ts,
                remark,
                result_view(r),
            ),
    {
        if !str_eq(amount.denom.as_str(), self.config.default_denom.as_str()) {
            return Err(ContractError::InvalidDenom);
        }
        if amount.amount == 0 {
            return Err(ContractError::InvalidAmount);
        }
        if parties.len() < 2 {
            return Err(ContractError::InvalidParty);
        }
        if let Some(ts) = expiry_ts {
            if ts <= env.block_time.seconds() {
                return Err(ContractError::CaseExpired);
            }
        }
        let id = self.next_case_id;
        let model_str = model_text_of(&model);
        let event = evt_open_case(id, &parties, &amount, model_str.as_str());
        let case = Case {
            id,
            parties,
            amount,
            model,
            expiry_ts,
            remark,
            created_at: env.block_time.seconds(),
            status: CaseStatus::Open,
            approvals: Vec::new(),
            dispute_reason: None,
            resolution: None,
        };
        self.cases.push(case);
        self.next_case_id = id + 1;
        let resp = Response::new().add_event(event).add_attribute("action", "open_case");
        proof {
            assert(self.cases@.subrange(0, old(self).cases@.len() as int) =~= old(self).cases@);
            assert(resp@.messages =~= Seq::<BankSendView>::empty());
            assert(resp@.attributes =~= seq![("action"@, "open_case"@)]);
            assert(resp@.events =~= seq![event@]);
        }
        Ok(resp)
    }
}

// ---------------------------------------------------------------------
// Approval.
// ---------------------------------------------------------------------
/// One successful approval: the sender joins the approvals, everything
/// else is kept, and the case becomes Approved exactly when the
/// approvals reach the model's required count.
pub open spec fn approve_step(c: Case, sender: Seq<char>, c2: Case) -> bool {
    &&& c2.approvals@.len() == c.approvals@.len() + 1
    &&& c2.approvals@.subrange(0, c.approvals@.len() as int) == c.approvals@
    &&& c2.approvals@.last()@ == sender
    &&& c2.status == (if c2.approvals@.len() >= required_approvals(c.model) {
        CaseStatus::Approved
    } else {
        c.status
    })
    &&& c2.id == c.id
    &&& c2.parties == c.parties
    &&& c2.amount == c.amount
    &&& c2.model == c.model
    &&& c2.expiry_ts == c.expiry_ts
    &&& c2.remark == c.remark
    &&& c2.created_at == c.created_at
    &&& c2.dispute_reason == c.dispute_reason
    &&& c2.resolution == c.resolution
}

/// Everything an approval does, as a relation between the engine before
/// and after: who may approve, when it is a no-op, and when the case
/// reaches Approved.
pub open spec fn approve_rel(
    pre: EscrowEngine,
    post: EscrowEngine,
    sender: Seq<char>,
    case_id: u64,
    r: Result<ResponseView, ContractError>,
) -> bool {
    &&& post.config == pre.config
    &&& post.next_case_id == pre.next_case_id
    &&& post.reputation == pre.reputation
    &&& if !pre.has_case(case_id) {
        r == Err::<ResponseView, ContractError>(ContractError::CaseNotFound) && post == pre
    } else {
        let c = pre.case_at(case_id);
        let idx = case_idx(pre.cases@, case_id);
        if !(c.status is Open) {
            r == Err::<ResponseView, ContractError>(ContractError::InvalidEscrowModel) && post
                == pre
        } else if !seq_has_str(c.parties@, sender) {
            r == Err::<ResponseView, ContractError>(ContractError::InvalidParty) && post == pre
        } else if seq_has_str(c.approvals@, sender) {
            // A repeated approval is a no-op: it succeeds without
            // state change and does not double-count.
            &&& post == pre
            &&& r == Ok::<ResponseView, ContractError>(
                ResponseView {
                    messages: Seq::empty(),
                    attributes: seq![("action"@, "already_approved"@)],
                    events: Seq::empty(),
                },
            )
        } else if !model_has_rule(c.model) {
            r == Err::<ResponseView, ContractError>(ContractError::InvalidEscrowModel) && post
                == pre
        } else {
            &&& post.cases@.len() == pre.cases@.len()
            &&& forall|k: int|
                0 <= k < pre.cases@.len() && k != idx ==> post.cases@[k] == pre.cases@[k]
            &&& approve_step(c, sender, post.cases@[idx])
            &&& r == Ok::<ResponseView, ContractError>(
                ResponseView {
                    messages: Seq::empty(),
                    attributes: seq![("action"@, "approve"@)],
                    events: seq![spec_evt_approve(case_id, sender)],
                },
            )
        }
    }
}

impl EscrowEngine {
    /// Records one party's approval of an open case. A repeated
    /// approval is a no-op; once the model's required count is reached
    /// the case becomes Approved. A case whose model carries no
    /// first-stage rule cannot be approved.
    pub fn exec_approve(&mut self, info: &MessageInfo, case_id: u64) -> (r: Result<
        Response,
        ContractError,
    >)
        requires
            old(self).wf(),
        ensures
            final(self).wf(),
            approve_rel(*old(self), *final(self), info.sender@, case_id, result_view(r)),
    {
        let i = match find_case(&self.cases, case_id) {
            Some(i) => i,
            None => {
                return Err(ContractError::CaseNotFound);
            },
        };
        proof {
            lemma_case_idx(self.cases@, i as int);
        }
        if !matches!(self.cases[i].status, CaseStatus::Open) {
            return Err(ContractError::InvalidEscrowModel);
        }
        if !contains_str(&self.cases[i].parties, info.sender.as_str()) {
            return Err(ContractError::InvalidParty);
        }
        if contains_str(&self.cases[i].approvals, info.sender.as_str()) {
            let resp = Response::new().add_attribute("action", "already_approved");
            proof {
                assert(resp@.messages =~= Seq::<BankSendView>::empty());
                assert(resp@.attributes =~= seq![("action"@, "already_approved"@)]);
                assert(resp@.events =~= Seq::<crate::host::EventView>::empty());
            }
            return Ok(resp);
        }
        let required: u32 = match &self.cases[i].model {
            EscrowModel::MultiSig { threshold } => *threshold,
            EscrowModel::TimeTiered { stages } => {
                if stages.len() == 0 {
                    return Err(ContractError::InvalidEscrowModel);
                }
                stages[0].required_approvals
            },
            EscrowModel::Milestones { steps } => {
                if steps.len() == 0 {
                    return Err(ContractError::InvalidEscrowModel);
                }
                steps[0].required_approvals
            },
        };
        let ghost c = self.cases@[i as int];
        let mut case = self.cases.remove(i);
        case.approvals.push(info.sender.clone());
        if case.approvals.len() >= required as usize {
            case.status = CaseStatus::Approved;
        }
        self.cases.insert(i, case);
        proof {
            let a = info.sender@;
            let c2 = self.cases@[i as int];
            assert(c2.approvals@.subrange(0, c.approvals@.len() as int) =~= c.approvals@);
            assert(approve_step(c, a, c2));
            assert forall|k: int|
                0 <= k < self.cases@.len() && k != i as int implies self.cases@[k] == old(
                self,
            ).cases@[k] by {}
            // The updated case is still well-formed: the new approval
            // is a party and was not yet recorded.
            assert(case_wf(c2)) by {
                assert forall|p: int, q: int| 0 <= p < q < c2.approvals@.len() implies (
                #[trigger] c2.approvals@[p])@ != (#[trigger] c2.approvals@[q])@ by {
                    if q < c.approvals@.len() {
                        assert(c.approvals@[p]@ != c.approvals@[q]@);
                    } else {
                        assert(c2.approvals@[q]@ == a);
                        assert(!seq_has_str(c.approvals@, a));
                        assert(c2.approvals@[p] == c.approvals@[p]);
                    }
                }
                assert forall|p: int| 0 <= p < c2.approvals@.len() implies seq_has_str(
                    c2.parties@,
                    (#[trigger] c2.approvals@[p])@,
                ) by {
                    if p < c.approvals@.len() {
                        assert(c2.approvals@[p] == c.approvals@[p]);
                        assert(seq_has_str(c.parties@, c.approvals@[p]@));
                    }
                }
            }
        }
        let event = evt_approve(case_id, info.sender.as_str());
        let resp = Response::new().add_event(event).add_attribute("action", "approve");
        proof {
            assert(resp@.messages =~= Seq::<BankSendView>::empty());
            assert(resp@.attributes =~= seq![("action"@, "approve"@)]);
            assert(resp@.events =~= seq![event@]);
        }
        Ok(resp)
    }
}

// ---------------------------------------------------------------------
// Dispute and resolution.
// ---------------------------------------------------------------------
/// Everything a dispute does: a party moves an Open or Approved case to
/// Disputed and records the reason.
pub open spec fn dispute_rel(
    pre: EscrowEngine,
    post: EscrowEngine,
    sender: Seq<char>,
    case_id: u64,
    reason: Option<String>,
    r: Result<ResponseView, ContractError>,
) -> bool {
    &&& post.config == pre.config
    &&& post.next_case_id == pre.next_case_id
    &&& post.reputation == pre.reputation
    &&& if !pre.has_case(case_id) {
        r == Err::<ResponseView, ContractError>(ContractError::CaseNotFound) && post == pre
    } else {
        let c = pre.case_at(case_id);
        let idx = case_idx(pre.cases@, case_id);
        if !seq_has_str(c.parties@, sender) {
            r == Err::<ResponseView, ContractError>(ContractError::InvalidParty) && post == pre
        } else if !(c.status is Open || c.status is Approved) {
            r == Err::<ResponseView, ContractError>(ContractError::InvalidEscrowModel) && post
                == pre
        } else {
            &&& post.cases@ == pre.cases@.update(
                idx,
                Case { status: CaseStatus::Disputed, dispute_reason: reason, ..c },
            )
            &&& r == Ok::<ResponseView, ContractError>(
                ResponseView {
                    messages: Seq::empty(),
                    attributes: seq![("action"@, "dispute"@)],
                    events: seq![spec_evt_dispute(case_id, sender, reason.deep_view())],
                },
            )
        }
    }
}

/// Everything a resolution does: the administrator or a party settles a
/// Disputed case with a decision; Resolved is terminal.
pub open spec fn resolve_rel(
    pre: EscrowEngine,
    post: EscrowEngine,
    sender: Seq<char>,
    case_id: u64,
    decision: Resolution,
    r: Result<ResponseView, ContractError>,
) -> bool {
    &&& post.config == pre.config
    &&& post.next_case_id == pre.next_case_id
    &&& post.reputation == pre.reputation
    &&& if !pre.has_case(case_id) {
        r == Err::<ResponseView, ContractError>(ContractError::CaseNotFound) && post == pre
    } else {
        let c = pre.case_at(case_id);
        let idx = case_idx(pre.cases@, case_id);
        if !(sender == pre.config.admin@ || seq_has_str(c.parties@, sender)) {
            r == Err::<ResponseView, ContractError>(ContractError::Unauthorized) && post == pre
        } else if !(c.status is Disputed) {
            r == Err::<ResponseView, ContractError>(ContractError::CaseNotInDispute) && post
                == pre
        } else {
            &&& post.cases@ == pre.cases@.update(
                idx,
                Case { status: CaseStatus::Resolved, resolution: Some(decision), ..c },
            )
            &&& r == Ok::<ResponseView, ContractError>(
                ResponseView {
                    messages: Seq::empty(),
                    attributes: seq![("action"@, "resolve"@)],
                    events: seq![
                        spec_evt_resolve(case_id, sender, decision_text(decision)),
                    ],
                },
            )
        }
    }
}

/// The label a decision carries in the resolution event.
pub open spec fn decision_text(d: Resolution) -> Seq<char> {
    match d {
        Resolution::Release { to, share_bps } => "Release("@ + to@ + ", "@ + dec_of(
            share_bps as nat,
        ) + "%)"@,
        Resolution::Refund => "Refund"@,
        Resolution::Split { shares } => "Split("@ + dec_of(shares@.len() as nat) + " parts)"@,
    }
}

fn decision_text_of(d: &Resolution) -> (r: String)
    ensures
        r@ == decision_text(*d),
{
    match d {
        Resolution::Release { to, share_bps } => {
            let mut t = String::from_str("Release(");
            t.append(to.as_str());
            t.append(", ");
            t.append(u64_to_dec(*share_bps as u64).as_str());
            t.append("%)");
            t
        },
        Resolution::Refund => String::from_str("Refund"),
        Resolution::Split { shares } => {
            let mut t = String::from_str("Split(");
            t.append(u64_to_dec(shares.len() as u64).as_str());
            t.append(" parts)");
            t
        },
    }
}

impl EscrowEngine {
    /// Moves an Open or Approved case to Disputed and stores the
    /// reason. Only a party to the case may dispute it.
    pub fn exec_dispute(&mut self, info: &MessageInfo, case_id: u64, reason: Option<String>) -> (r:
        Result<Response, ContractError>)
        requires
            old(self).wf(),
        ensures
            final(self).wf(),
            dispute_rel(*old(self), *final(self), info.sender@, case_id, reason, result_view(r)),
    {
        let i = match find_case(&self.cases, case_id) {
            Some(i) => i,
            None => {
                return Err(ContractError::CaseNotFound);
            },
        };
        proof {
            lemma_case_idx(self.cases@, i as int);
        }
        if !contains_str(&self.cases[i].parties, info.sender.as_str()) {
            return Err(ContractError::InvalidParty);
        }
        if !(matches!(self.cases[i].status, CaseStatus::Open) || matches!(
            self.cases[i].status,
            CaseStatus::Approved,
        )) {
            return Err(ContractError::InvalidEscrowModel);
        }
        let ghost c = self.cases@[i as int];
        let event = evt_dispute(case_id, info.sender.as_str(), &reason);
        let mut case = self.cases.remove(i);
        case.status = CaseStatus::Disputed;
        case.dispute_reason = reason;
        self.cases.insert(i, case);
        proof {
            assert(self.cases@ =~= old(self).cases@.update(
                i as int,
                Case { status: CaseStatus::Disputed, dispute_reason: self.cases@[i as int].dispute_reason, ..c },
            ));
        }
        let resp = Response::new().add_event(event).add_attribute("action", "dispute");
        proof {
            assert(resp@.messages =~= Seq::<BankSendView>::empty());
            assert(resp@.attributes =~= seq![("action"@, "dispute"@)]);
            assert(resp@.events =~= seq![event@]);
        }
        Ok(resp)
    }

    /// Settles a Disputed case with a decision; the case becomes
    /// Resolved, a terminal status. The administrator or any party may
    /// resolve.
    pub fn exec_resolve(&mut self, info: &MessageInfo, case_id: u64, decision: Resolution) -> (r:
        Result<Response, ContractError>)
        requires
            old(self).wf(),
        ensures
            final(self).wf(),
            resolve_rel(*old(self), *final(self), info.sender@, case_id, decision, result_view(r)),
    {
        let i = match find_case(&self.cases, case_id) {
            Some(i) => i,
            None => {
                return Err(ContractError::CaseNotFound);
            },
        };
        proof {
            lemma_case_idx(self.cases@, i as int);
        }
        let is_admin = str_eq(info.sender.as_str(), self.config.admin.as_str());
        let is_party = contains_str(&self.cases[i].parties, info.sender.as_str());
        if !(is_admin || is_party) {
            return Err(ContractError::Unauthorized);
        }
        if !matches!(self.cases[i].status, CaseStatus::Disputed) {
            return Err(ContractError::CaseNotInDispute);
        }
        let ghost c = self.cases@[i as int];
        let decision_str = decision_text_of(&decision);
        let event = evt_resolve(case_id, info.sender.as_str(), decision_str.as_str());
        let mut case = self.cases.remove(i);
        case.status = CaseStatus::Resolved;
        case.resolution = Some(decision);
        self.cases.insert(i, case);
        proof {
            assert(self.cases@ =~= old(self).cases@.update(
                i as int,
                Case { status: CaseStatus::Resolved, resolution: self.cases@[i as int].resolution, ..c },
            ));
        }
        let resp = Response::new().add_event(event).add_attribute("action", "resolve");
        proof {
            assert(resp@.messages =~= Seq::<BankSendView>::empty());
            assert(resp@.attributes =~= seq![("action"@, "resolve"@)]);
            assert(resp@.events =~= seq![event@]);
        }
        Ok(resp)
    }
}

// ---------------------------------------------------------------------
// Release and refund.
// ---------------------------------------------------------------------
/// The share of the custodied amount released at `share_bps` basis
/// points, truncated toward zero: rounding favours the contract, never
/// the recipient.
pub open spec fn released_amount(amount: u128, share_bps: u16) -> int {
    amount * share_bps / 10000
}

/// Everything a release does: after resolution the administrator sends
/// a share of the custodied amount to a recipient. The case record
/// itself is not mutated.
pub open spec fn release_rel(
    pre: EscrowEngine,
    post: EscrowEngine,
    sender: Seq<char>,
    case_id: u64,
    to: String,
    share_bps: Option<u16>,
    r: Result<ResponseView, ContractError>,
) -> bool {
    &&& post == pre
    &&& if !pre.has_case(case_id) {
        r == Err::<ResponseView, ContractError>(ContractError::CaseNotFound)
    } else {
        let c = pre.case_at(case_id);
        if sender != pre.config.admin@ {
            r == Err::<ResponseView, ContractError>(ContractError::Unauthorized)
        } else if !(c.status is Resolved) {
            r == Err::<ResponseView, ContractError>(ContractError::InvalidEscrowModel)
        } else if share_bps.unwrap_or(10000) > 10000 {
            r == Err::<ResponseView, ContractError>(ContractError::InvalidAmount)
        } else {
            let released = released_amount(c.amount.amount, share_bps.unwrap_or(10000)) as u128;
            r == Ok::<ResponseView, ContractError>(
                ResponseView {
                    messages: seq![
                        BankSendView {
                            to_address: to@,
                            amount: seq![CoinView { denom: c.amount.denom@, amount: released }],
                        },
                    ],
                    attributes: seq![("action"@, "release"@)],
                    events: seq![
                        spec_evt_release(case_id, to@, released, c.amount.denom@),
                    ],
                },
            )
        }
    }
}

/// Everything a refund does: after resolution the administrator sends
/// the full custodied amount back to the first party. The case record
/// itself is not mutated.
pub open spec fn refund_rel(
    pre: EscrowEngine,
    post: EscrowEngine,
    sender: Seq<char>,
    case_id: u64,
    r: Result<ResponseView, ContractError>,
) -> bool {
    &&& post == pre
    &&& if !pre.has_case(case_id) {
        r == Err::<ResponseView, ContractError>(ContractError::CaseNotFound)
    } else {
        let c = pre.case_at(case_id);
        if sender != pre.config.admin@ {
            r == Err::<ResponseView, ContractError>(ContractError::Unauthorized)
        } else if !(c.status is Resolved) {
            r == Err::<ResponseView, ContractError>(ContractError::InvalidEscrowModel)
        } else {
            r == Ok::<ResponseView, ContractError>(
                ResponseView {
                    messages: seq![
                        BankSendView {
                            to_address: c.parties@[0]@,
                            amount: seq![c.amount@],
                        },
                    ],
                    attributes: seq![("action"@, "refund"@)],
                    events: seq![
                        spec_evt_refund(
                            case_id,
                            c.parties@[0]@,
                            c.amount.amount,
                            c.amount.denom@,
                        ),
                    ],
                },
            )
        }
    }
}

impl EscrowEngine {
    /// Sends `share_bps` (the whole amount unless named) of a resolved
    /// case's custodied amount to `to`. Only the administrator may
    /// release; the division truncates toward zero.
    pub fn exec_release(
        &mut self,
        info: &MessageInfo,
        case_id: u64,
        to: String,
        share_bps: Option<u16>,
    ) -> (r: Result<Response, ContractError>)
        requires
            old(self).wf(),
        ensures
            final(self).wf(),
            release_rel(
                *old(self),
                *final(self),
                info.sender@,
                case_id,
                to,
                share_bps,
                result_view(r),
            ),
    {
        let i = match find_case(&self.cases, case_id) {
            Some(i) => i,
            None => {
                return Err(ContractError::CaseNotFound);
            },
        };
        proof {
            lemma_case_idx(self.cases@, i as int);
        }
        if !str_eq(info.sender.as_str(), self.config.admin.as_str()) {
            return Err(ContractError::Unauthorized);
        }
        if !matches!(self.cases[i].status, CaseStatus::Resolved) {
            return Err(ContractError::InvalidEscrowModel);
        }
        let share: u16 = match share_bps {
            Some(s) => s,
            None => 10000,
        };
        if share > 10000 {
            return Err(ContractError::InvalidAmount);
        }
        let total = self.cases[i].amount.amount;
        proof {
            lemma_released_fits(total as int, share as int);
        }
        let q: u128 = total / 10000;
        let rem: u128 = total % 10000;
        let released: u128 = q * (share as u128) + rem * (share as u128) / 10000;
        let coin = Coin { denom: self.cases[i].amount.denom.clone(), amount: released };
        let event = evt_release(case_id, to.as_str(), &coin);
        let mut coins: Vec<Coin> = Vec::new();
        coins.push(coin);
        let ghost to_view = to@;
        let bank = BankSend { to_address: to, amount: coins };
        proof {
            assert(bank@.amount =~= seq![
                CoinView { denom: self.cases@[i as int].amount.denom@, amount: released },
            ]);
        }
        let resp = Response::new().add_message(bank).add_event(event).add_attribute(
            "action",
            "release",
        );
        proof {
            assert(resp@.messages =~= seq![bank@]);
            assert(resp@.attributes =~= seq![("action"@, "release"@)]);
            assert(resp@.events =~= seq![event@]);
        }
        Ok(resp)
    }

    /// Sends a resolved case's full custodied amount back to the first
    /// party. Only the administrator may refund.
    pub fn exec_refund(&mut self, info: &MessageInfo, case_id: u64) -> (r: Result<
        Response,
        ContractError,
    >)
        requires
            old(self).wf(),
        ensures
            final(self).wf(),
            refund_rel(*old(self), *final(self), info.sender@, case_id, result_view(r)),
    {
        let i = match find_case(&self.cases, case_id) {
            Some(i) => i,
            None => {
                return Err(ContractError::CaseNotFound);
            },
        };
        proof {
            lemma_case_idx(self.cases@, i as int);
        }
        if !str_eq(info.sender.as_str(), self.config.admin.as_str()) {
            return Err(ContractError::Unauthorized);
        }
        if !matches!(self.cases[i].status, CaseStatus::Resolved) {
            return Err(ContractError::InvalidEscrowModel);
        }
        let refund_to = self.cases[i].parties[0].clone();
        let coin = self.cases[i].amount.clone_coin();
        let event = evt_refund(case_id, refund_to.as_str(), &coin);
        let mut coins: Vec<Coin> = Vec::new();
        coins.push(coin);
        let bank = BankSend { to_address: refund_to, amount: coins };
        proof {
            assert(bank@.amount =~= seq![self.cases@[i as int].amount@]);
        }
        let resp = Response::new().add_message(bank).add_event(event).add_attribute(
            "action",
            "refund",
        );
        proof {
            assert(resp@.messages =~= seq![bank@]);
            assert(resp@.attributes =~= seq![("action"@, "refund"@)]);
            assert(resp@.events =~= seq![event@]);
        }
        Ok(resp)
    }

    /// One command dispatch: the engine's whole mutating interface.
    pub fn execute(&mut self, env: &Env, info: &MessageInfo, msg: ExecuteMsg) -> (r: Result<
        Response,
        ContractError,
    >)
        requires
            old(self).wf(),
            msg is OpenCase ==> old(self).next_case_id < u64::MAX,
        ensures
            final(self).wf(),
            match msg {
                ExecuteMsg::OpenCase { parties, amount, model, expiry_ts, remark } => open_case_rel(
                    *old(self),
                    *final(self),
                    env.block_time.spec_seconds(),
                    parties,
                    amount,
                    model,
                    expiry_ts,
                    remark,
                    result_view(r),
                ),
                ExecuteMsg::Approve { case_id } => approve_rel(
                    *old(self),
                    *final(self),
                    info.sender@,
                    case_id,
                    result_view(r),
                ),
                ExecuteMsg::Dispute { case_id, reason } => dispute_rel(
                    *old(self),
                    *final(self),
                    info.sender@,
                    case_id,
                    reason,
                    result_view(r),
                ),
                ExecuteMsg::Resolve { case_id, decision } => resolve_rel(
                    *old(self),
                    *final(self),
                    info.sender@,
                    case_id,
                    decision,
                    result_view(r),
                ),
                ExecuteMsg::Release { case_id, to, share_bps } => release_rel(
                    *old(self),
                    *final(self),
                    info.sender@,
                    case_id,
                    to,
                    share_bps,
                    result_view(r),
                ),
                ExecuteMsg::Refund { case_id } => refund_rel(
                    *old(self),
                    *final(self),
                    info.sender@,
                    case_id,
                    result_view(r),
                ),
            },
    {
        match msg {
            ExecuteMsg::OpenCase { parties, amount, model, expiry_ts, remark } => self
                .exec_open_case(env, info, parties, amount, model, expiry_ts, remark),
            ExecuteMsg::Approve { case_id } => self.exec_approve(info, case_id),
            ExecuteMsg::Dispute { case_id, reason } => self.exec_dispute(info, case_id, reason),
            ExecuteMsg::Resolve { case_id, decision } => self.exec_resolve(
                info,
                case_id,
                decision,
            ),
            ExecuteMsg::Release { case_id, to, share_bps } => self.exec_release(
                info,
                case_id,
                to,
                share_bps,
            ),
            ExecuteMsg::Refund { case_id } => self.exec_refund(info, case_id),
        }
    }
}

// ---------------------------------------------------------------------
// Queries.
// ---------------------------------------------------------------------
/// The ghost shape of a case answer.
pub open spec fn spec_case_resp(c: Case) -> CaseRespView {
    CaseRespView {
        id: c.id,
        parties: c.parties.deep_view(),
        amount: c.amount@,
        model: c.model.deep_view(),
        expiry_ts: c.expiry_ts,
        remark: c.remark.deep_view(),
        created_at: c.created_at,
        status: c.status,
        approvals: c.approvals.deep_view(),
        dispute_reason: c.dispute_reason.deep_view(),
        resolution: c.resolution.deep_view(),
    }
}

fn case_to_resp(c: &Case) -> (r: CaseResp)
    ensures
        r@ == spec_case_resp(*c),
{
    let resolution: Option<Resolution> = match &c.resolution {
        Some(d) => Some(d.duplicate()),
        None => None,
    };
    CaseResp {
        id: c.id,
        parties: clone_string_vec(&c.parties),
        amount: c.amount.clone_coin(),
        model: c.model.duplicate(),
        expiry_ts: c.expiry_ts,
        remark: clone_opt_string(&c.remark),
        created_at: c.created_at,
        status: c.status,
        approvals: clone_string_vec(&c.approvals),
        dispute_reason: clone_opt_string(&c.dispute_reason),
        resolution,
    }
}

/// How many cases have an id at or below the cursor.
pub open spec fn count_le(cases: Seq<Case>, start: u64) -> int
    decreases cases.len(),
{
    if cases.len() == 0 {
        0
    } else {
        count_le(cases.drop_last(), start) + if cases.last().id <= start {
            1int
        } else {
            0int
        }
    }
}

/// In a sorted list, the cursor count is exactly the boundary index.
proof fn lemma_count_le_boundary(cases: Seq<Case>, start: u64, b: int)
    requires
        cases_sorted(cases),
        0 <= b <= cases.len(),
        forall|k: int| 0 <= k < b ==> (#[trigger] cases[k]).id <= start,
        b < cases.len() ==> cases[b].id > start,
    ensures
        count_le(cases, start) == b,
    decreases cases.len(),
{
    if cases.len() == 0 {
    } else {
        let prefix = cases.drop_last();
        assert(cases_sorted(prefix));
        if b == cases.len() {
            lemma_count_le_boundary(prefix, start, b - 1);
        } else {
            assert(cases[b].id > start);
            if b < cases.len() - 1 {
                assert(cases[b].id < cases.last().id);
            }
            lemma_count_le_boundary(prefix, start, b);
        }
    }
}

/// Where a page begins: just past the cursor, or at the start.
pub open spec fn page_start(cases: Seq<Case>, start_after: Option<u64>) -> int {
    match start_after {
        Some(s) => count_le(cases, s),
        None => 0,
    }
}

/// The page size cap: the given limit, or 30.
pub open spec fn page_limit(limit: Option<u32>) -> int {
    match limit {
        Some(l) => l as int,
        None => 30,
    }
}

/// The page a case listing returns: at most `limit` case answers, in
/// id order, starting strictly after the cursor.
pub open spec fn cases_page(
    cases: Seq<Case>,
    start_after: Option<u64>,
    limit: Option<u32>,
) -> Seq<CaseRespView> {
    let s = page_start(cases, start_after);
    let n = if page_limit(limit) <= cases.len() - s {
        page_limit(limit)
    } else {
        cases.len() - s
    };
    Seq::new(n as nat, |j: int| spec_case_resp(cases[s + j]))
}

/// The reputation recorded for an account: its first row's score, or
/// zero when none is recorded.
pub open spec fn rep_lookup(entries: Seq<ReputationEntry>, addr: Seq<char>) -> u64
    decreases entries.len(),
{
    if entries.len() == 0 {
        0
    } else if entries[0].address@ == addr {
        entries[0].score
    } else {
        rep_lookup(entries.drop_first(), addr)
    }
}

impl EscrowEngine {
    /// The configuration, as a query answer.
    pub fn query_config(&self) -> (r: ConfigResp)
        ensures
            r@.admin == self.config.admin@,
            r@.default_denom == self.config.default_denom@,
            r@.min_approval_threshold == self.config.min_approval_threshold,
    {
        ConfigResp {
            admin: self.config.admin.clone(),
            default_denom: self.config.default_denom.clone(),
            min_approval_threshold: self.config.min_approval_threshold,
        }
    }

    /// One case by id, or nothing when the id is unknown.
    pub fn get_case(&self, id: u64) -> (r: Option<CaseResp>)
        requires
            self.wf(),
        ensures
            r is Some <==> self.has_case(id),
            r is Some ==> r->0@ == spec_case_resp(self.case_at(id)),
    {
        match find_case(&self.cases, id) {
            Some(i) => {
                proof {
                    lemma_case_idx(self.cases@, i as int);
                }
                Some(case_to_resp(&self.cases[i]))
            },
            None => None,
        }
    }

    /// Lists cases in id order, beginning strictly after the cursor,
    /// at most `limit` (30 when unnamed) of them. The page is a pure
    /// function of the stored cases, the cursor and the limit.
    pub fn list_cases(&self, start_after: Option<u64>, limit: Option<u32>) -> (r: Vec<CaseResp>)
        requires
            self.wf(),
        ensures
            r.deep_view() == cases_page(self.cases@, start_after, limit),
    {
        let lim: usize = match limit {
            Some(l) => l as usize,
            None => 30,
        };
        let n = self.cases.len();
        let mut i: usize = 0;
        match start_after {
            Some(start) => {
                while i < n && self.cases[i].id <= start
                    invariant
                        0 <= i <= n == self.cases@.len(),
                        forall|k: int| 0 <= k < i ==> (#[trigger] self.cases@[k]).id <= start,
                    decreases n - i,
                {
                    i = i + 1;
                }
                proof {
                    lemma_count_le_boundary(self.cases@, start, i as int);
                }
            },
            None => {
            },
        }
        let ghost s = page_start(self.cases@, start_after);
        let ghost page = cases_page(self.cases@, start_after, limit);
        let start_idx = i;
        let mut out: Vec<CaseResp> = Vec::new();
        while i < n && out.len() < lim
            invariant
                0 <= start_idx <= i <= n == self.cases@.len(),
                s == start_idx as int,
                s == page_start(self.cases@, start_after),
                lim == page_limit(limit),
                page == cases_page(self.cases@, start_after, limit),
                page.len() == if page_limit(limit) <= n - s {
                    page_limit(limit)
                } else {
                    n - s
                },
                out@.len() == i - start_idx,
                out@.len() <= lim,
                forall|k: int| 0 <= k < out@.len() ==> (#[trigger] out@[k])@ == page[k],
            decreases n - i,
        {
            let ghost j = i - start_idx;
            out.push(case_to_resp(&self.cases[i]));
            proof {
                assert(0 <= j < page.len());
                assert(page[j as int] == spec_case_resp(self.cases@[s + j]));
                assert(out@[j as int]@ == spec_case_resp(self.cases@[i as int]));
            }
            i = i + 1;
        }
        proof {
            assert(page.len() == out@.len());
            assert forall|k: int| 0 <= k < page.len() implies out.deep_view()[k] == page[k] by {
                assert(out.deep_view()[k] == out@[k].deep_view());
            }
            assert(out.deep_view() =~= page);
        }
        out
    }

    /// The reputation recorded for an account (zero when none is).
    pub fn get_reputation(&self, address: &str) -> (r: u64)
        ensures
            r == rep_lookup(self.reputation@, address@),
    {
        let mut i: usize = 0;
        proof {
            assert(self.reputation@.skip(0) =~= self.reputation@);
        }
        while i < self.reputation.len()
            invariant
                0 <= i <= self.reputation@.len(),
                rep_lookup(self.reputation@, address@) == rep_lookup(
                    self.reputation@.skip(i as int),
                    address@,
                ),
            decreases self.reputation@.len() - i,
        {
            proof {
                assert(self.reputation@.skip(i as int)[0] == self.reputation@[i as int]);
                assert(self.reputation@.skip(i as int).drop_first() =~= self.reputation@.skip(
                    i + 1,
                ));
            }
            if str_eq(self.reputation[i].address.as_str(), address) {
                return self.reputation[i].score;
            }
            i = i + 1;
        }
        proof {
            assert(self.reputation@.skip(self.reputation@.len() as int).len() == 0);
        }
        0
    }

    /// One query dispatch: the engine's whole read-only interface.
    pub fn query(&self, msg: QueryMsg) -> (r: Result<QueryAnswer, ContractError>)
        requires
            self.wf(),
        ensures
            match msg {
                QueryMsg::Config {} => {
                    &&& r is Ok
                    &&& r->Ok_0 matches QueryAnswer::Config(c)
                    &&& r->Ok_0->Config_0@.admin == self.config.admin@
                    &&& r->Ok_0->Config_0@.default_denom == self.config.default_denom@
                    &&& r->Ok_0->Config_0@.min_approval_threshold
                        == self.config.min_approval_threshold
                },
                QueryMsg::GetCase { id } => if self.has_case(id) {
                    r == Ok::<QueryAnswer, ContractError>(QueryAnswer::Case(r->Ok_0->Case_0))
                        && r->Ok_0->Case_0@ == spec_case_resp(self.case_at(id))
                } else {
                    r == Err::<QueryAnswer, ContractError>(ContractError::CaseNotFound)
                },
                QueryMsg::ListCases { start_after, limit } => {
                    &&& r is Ok
                    &&& r->Ok_0 matches QueryAnswer::Cases(cs)
                    &&& r->Ok_0->Cases_0.deep_view() == cases_page(
                        self.cases@,
                        start_after,
                        limit,
                    )
                },
                QueryMsg::GetReputation { address } => r == Ok::<QueryAnswer, ContractError>(
                    QueryAnswer::Reputation(rep_lookup(self.reputation@, address@)),
                ),
            },
    {
        match msg {
            QueryMsg::Config {} => Ok(QueryAnswer::Config(self.query_config())),
            QueryMsg::GetCase { id } => match self.get_case(id) {
                Some(c) => Ok(QueryAnswer::Case(c)),
                None => Err(ContractError::CaseNotFound),
            },
            QueryMsg::ListCases { start_after, limit } => Ok(
                QueryAnswer::Cases(self.list_cases(start_after, limit)),
            ),
            QueryMsg::GetReputation { address } => Ok(
                QueryAnswer::Reputation(self.get_reputation(address.as_str())),
            ),
        }
    }
}

// ---------------------------------------------------------------------
// Laws of the case lifecycle.
// ---------------------------------------------------------------------
/// The transitions the lifecycle allows: standing still, Open to
/// Approved or Disputed, Approved to Disputed, Disputed to Resolved.
pub open spec fn status_step_allowed(s1: CaseStatus, s2: CaseStatus) -> bool {
    ||| s1 == s2
    ||| (s1 is Open && (s2 is Approved || s2 is Disputed))
    ||| (s1 is Approved && s2 is Disputed)
    ||| (s1 is Disputed && s2 is Resolved)
}

/// Law: an approval only moves statuses along the lifecycle, and a
/// Resolved case can never be approved — the attempt fails with the
/// invalid-state error and mutates nothing.
pub proof fn lemma_lifecycle_approve(
    pre: EscrowEngine,
    post: EscrowEngine,
    sender: Seq<char>,
    case_id: u64,
    r: Result<ResponseView, ContractError>,
)
    requires
        approve_rel(pre, post, sender, case_id, r),
    ensures
        post.cases@.len() == pre.cases@.len(),
        forall|k: int|
            0 <= k < pre.cases@.len() ==> status_step_allowed(
                (#[trigger] pre.cases@[k]).status,
                post.cases@[k].status,
            ),
        pre.has_case(case_id) && pre.case_at(case_id).status is Resolved ==> r == Err::<
            ResponseView,
            ContractError,
        >(ContractError::InvalidEscrowModel) && post == pre,
{
}

/// Law: a dispute only moves statuses along the lifecycle, and a
/// Resolved case can never be disputed — the attempt fails with the
/// invalid-state error and mutates nothing.
pub proof fn lemma_lifecycle_dispute(
    pre: EscrowEngine,
    post: EscrowEngine,
    sender: Seq<char>,
    case_id: u64,
    reason: Option<String>,
    r: Result<ResponseView, ContractError>,
)
    requires
        dispute_rel(pre, post, sender, case_id, reason, r),
    ensures
        post.cases@.len() == pre.cases@.len(),
        forall|k: int|
            0 <= k < pre.cases@.len() ==> status_step_allowed(
                (#[trigger] pre.cases@[k]).status,
                post.cases@[k].status,
            ),
        pre.has_case(case_id) && pre.case_at(case_id).status is Resolved ==> r == Err::<
            ResponseView,
            ContractError,
        >(ContractError::InvalidEscrowModel) && post == pre || r == Err::<
            ResponseView,
            ContractError,
        >(ContractError::InvalidParty) && post == pre,
{
}

/// Law: a resolution only moves statuses along the lifecycle — a
/// Disputed case becomes Resolved — and a case already Resolved cannot
/// be resolved again: the attempt fails and mutates nothing.
pub proof fn lemma_lifecycle_resolve(
    pre: EscrowEngine,
    post: EscrowEngine,
    sender: Seq<char>,
    case_id: u64,
    decision: Resolution,
    r: Result<ResponseView, ContractError>,
)
    requires
        resolve_rel(pre, post, sender, case_id, decision, r),
    ensures
        post.cases@.len() == pre.cases@.len(),
        forall|k: int|
            0 <= k < pre.cases@.len() ==> status_step_allowed(
                (#[trigger] pre.cases@[k]).status,
                post.cases@[k].status,
            ),
        pre.has_case(case_id) && pre.case_at(case_id).status is Resolved ==> r is Err && post
            == pre,
{
}

/// Law: a two-party case under MultiSig with threshold 2 reaches
/// Approved exactly when both parties have approved, in either order:
/// after the first approval it is still Open, after the second it is
/// Approved. (A repeated approval by the same party is a no-op by
/// [`approve_rel`] and so cannot stand in for the second party.)
pub proof fn lemma_multisig_two_party(c0: Case, c1: Case, c2: Case, x: Seq<char>, y: Seq<char>)
    requires
        c0.model == (EscrowModel::MultiSig { threshold: 2u32 }),
        c0.status is Open,
        c0.approvals@.len() == 0,
        x != y,
        approve_step(c0, x, c1),
        approve_step(c1, y, c2),
    ensures
        c1.status is Open,
        c2.status is Approved,
{
    assert(c1.approvals@.len() == 1);
    assert(c2.approvals@.len() == 2);
}

/// Read queries are deterministic: against one engine state, the same
/// cursor and the same limit always name the same page, however often
/// the query runs.
pub proof fn lemma_list_cases_deterministic(
    e: EscrowEngine,
    start_after: Option<u64>,
    limit: Option<u32>,
    r1: Seq<CaseRespView>,
    r2: Seq<CaseRespView>,
)
    requires
        r1 == cases_page(e.cases@, start_after, limit),
        r2 == cases_page(e.cases@, start_after, limit),
    ensures
        r1 == r2,
{
}

/// A share of at most the whole splits into quotient and remainder
/// parts without overflowing the magnitude range.
proof fn lemma_released_fits(amount: int, share: int)
    requires
        0 <= amount <= u128::MAX,
        0 <= share <= 10000,
    ensures
        amount * share / 10000 <= amount,
        (amount / 10000) * share + (amount % 10000) * share / 10000 == amount * share / 10000,
        (amount / 10000) * share <= amount * share / 10000,
        0 <= (amount % 10000) * share / 10000,
        amount % 10000 < 10000,
        (amount % 10000) * share < 10000 * 0x10000,
{
    crate::common::math::lemma_split_mul_div(amount, share, 10000);
    if amount > 0 {
        vstd::arithmetic::mul::lemma_mul_left_inequality(amount, share, 10000);
        vstd::arithmetic::div_mod::lemma_div_is_ordered(amount * share, amount * 10000, 10000);
        vstd::arithmetic::div_mod::lemma_div_by_multiple(amount, 10000);
        assert(amount * 10000 / 10000 == amount);
    } else {
        assert(amount * share == 0) by (nonlinear_arith)
            requires
                amount == 0,
        ;
    }
    assert((amount % 10000) * share < 10000 * 0x10000) by (nonlinear_arith)
        requires
            0 <= amount % 10000 < 10000 && 0 <= share < 0x10000,
    ;
}

} // verus!
