//! Command and query payloads of the escrow case engine, and the ghost
//! views the query contracts are stated over.

use vstd::prelude::*;

use crate::host::Coin;
use crate::host::CoinView;
use crate::strings::clone_opt_string;
use crate::strings::clone_string_vec;

verus! {

#[derive(Clone, Debug, PartialEq, Eq)]
pub struct InstantiateMsg {
    pub admin: Option<String>,
    pub default_denom: String,
    pub min_approval_threshold: Option<u32>,
}

#[derive(Clone, Debug, PartialEq, Eq)]
pub enum ExecuteMsg {
    OpenCase {
        parties: Vec<String>,
        amount: Coin,
        model: EscrowModel,
        expiry_ts: Option<u64>,
        remark: Option<String>,
    },
    Approve { case_id: u64 },
    Dispute { case_id: u64, reason: Option<String> },
    Resolve { case_id: u64, decision: Resolution },
    Release { case_id: u64, to: String, share_bps: Option<u16> },
    Refund { case_id: u64 },
}

#[derive(Clone, Debug, PartialEq, Eq)]
pub enum QueryMsg {
    Config {},
    GetCase { id: u64 },
    ListCases { start_after: Option<u64>, limit: Option<u32> },
    GetReputation { address: String },
}

#[derive(Clone, Debug, PartialEq, Eq)]
pub struct ConfigResp {
    pub admin: String,
    pub default_denom: String,
    pub min_approval_threshold: u32,
}

pub struct ConfigRespView {
    pub admin: Seq<char>,
    pub default_denom: Seq<char>,
    pub min_approval_threshold: u32,
}

impl View for ConfigResp {
    type V = ConfigRespView;

    open spec fn view(&self) -> ConfigRespView {
        ConfigRespView {
            admin: self.admin@,
            default_denom: self.default_denom@,
            min_approval_threshold: self.min_approval_threshold,
        }
    }
}

#[derive(Clone, Debug, PartialEq, Eq)]
pub struct CaseResp {
    pub id: u64,
    pub parties: Vec<String>,
    pub amount: Coin,
    pub model: EscrowModel,
    pub expiry_ts: Option<u64>,
    pub remark: Option<String>,
    pub created_at: u64,
    pub status: CaseStatus,
    pub approvals: Vec<String>,
    pub dispute_reason: Option<String>,
    pub resolution: Option<Resolution>,
}

pub struct CaseRespView {
    pub id: u64,
    pub parties: Seq<Seq<char>>,
    pub amount: CoinView,
    pub model: EscrowModelView,
    pub expiry_ts: Option<u64>,
    pub remark: Option<Seq<char>>,
    pub created_at: u64,
    pub status: CaseStatus,
    pub approvals: Seq<Seq<char>>,
    pub dispute_reason: Option<Seq<char>>,
    pub resolution: Option<ResolutionView>,
}

impl View for CaseResp {
    type V = CaseRespView;

    open spec fn view(&self) -> CaseRespView {
        CaseRespView {
            id: self.id,
            parties: self.parties.deep_view(),
            amount: self.amount@,
            model: self.model.deep_view(),
            expiry_ts: self.expiry_ts,
            remark: self.remark.deep_view(),
            created_at: self.created_at,
            status: self.status,
            approvals: self.approvals.deep_view(),
            dispute_reason: self.dispute_reason.deep_view(),
            resolution: self.resolution.deep_view(),
        }
    }
}

impl DeepView for CaseResp {
    type V = CaseRespView;

    open spec fn deep_view(&self) -> CaseRespView {
        self@
    }
}

/// The authorization model of a case: a flat approval threshold,
/// time-ordered stages, or completion-gated milestones. Only the first
/// stage or step gates the Open to Approved transition in this version.
#[derive(Clone, Debug, PartialEq, Eq)]
pub enum EscrowModel {
    MultiSig { threshold: u32 },
    TimeTiered { stages: Vec<TimeStage> },
    Milestones { steps: Vec<Milestone> },
}

pub enum EscrowModelView {
    MultiSig { threshold: u32 },
    TimeTiered { stages: Seq<TimeStage> },
    Milestones { steps: Seq<MilestoneView> },
}

impl DeepView for EscrowModel {
    type V = EscrowModelView;

    open spec fn deep_view(&self) -> EscrowModelView {
        match self {
            EscrowModel::MultiSig { threshold } => EscrowModelView::MultiSig {
                threshold: *threshold,
            },
            EscrowModel::TimeTiered { stages } => EscrowModelView::TimeTiered {
                stages: stages@,
            },
            EscrowModel::Milestones { steps } => EscrowModelView::Milestones {
                steps: steps.deep_view(),
            },
        }
    }
}

#[derive(Clone, Copy, Debug, PartialEq, Eq, Structural)]
pub struct TimeStage {
    pub duration: u64,
    pub required_approvals: u32,
}

#[derive(Clone, Debug, PartialEq, Eq)]
pub struct Milestone {
    pub description: String,
    pub required_approvals: u32,
    pub completed: bool,
}

pub struct MilestoneView {
    pub description: Seq<char>,
    pub required_approvals: u32,
    pub completed: bool,
}

impl DeepView for Milestone {
    type V = MilestoneView;

    open spec fn deep_view(&self) -> MilestoneView {
        MilestoneView {
            description: self.description@,
            required_approvals: self.required_approvals,
            completed: self.completed,
        }
    }
}

#[derive(Clone, Copy, Debug, PartialEq, Eq, Structural)]
pub enum CaseStatus {
    Open,
    Approved,
    Disputed,
    Resolved,
    Expired,
}

/// How a disputed case is settled: a share released to one account, a
/// refund, or a split.
#[derive(Clone, Debug, PartialEq, Eq)]
pub enum Resolution {
    Release { to: String, share_bps: u16 },
    Refund,
    Split { shares: Vec<(String, u16)> },
}

pub enum ResolutionView {
    Release { to: Seq<char>, share_bps: u16 },
    Refund,
    Split { shares: Seq<(Seq<char>, u16)> },
}

impl DeepView for Resolution {
    type V = ResolutionView;

    open spec fn deep_view(&self) -> ResolutionView {
        match self {
            Resolution::Release { to, share_bps } => ResolutionView::Release {
                to: to@,
                share_bps: *share_bps,
            },
            Resolution::Refund => ResolutionView::Refund,
            Resolution::Split { shares } => ResolutionView::Split { shares: shares.deep_view() },
        }
    }
}

impl EscrowModel {
    /// A copy with the same view.
    pub fn duplicate(&self) -> (r: EscrowModel)
        ensures
            r.deep_view() == self.deep_view(),
    {
        match self {
            EscrowModel::MultiSig { threshold } => EscrowModel::MultiSig { threshold: *threshold },
            EscrowModel::TimeTiered { stages } => {
                let mut out: Vec<TimeStage> = Vec::new();
                let mut i: usize = 0;
                while i < stages.len()
                    invariant
                        0 <= i <= stages@.len(),
                        out@ =~= stages@.subrange(0, i as int),
                    decreases stages@.len() - i,
                {
                    out.push(stages[i]);
                    proof {
                        assert(out@ =~= stages@.subrange(0, i + 1));
                    }
                    i = i + 1;
                }
                proof {
                    assert(stages@.subrange(0, stages@.len() as int) =~= stages@);
                }
                EscrowModel::TimeTiered { stages: out }
            },
            EscrowModel::Milestones { steps } => {
                let mut out: Vec<Milestone> = Vec::new();
                let mut i: usize = 0;
                while i < steps.len()
                    invariant
                        0 <= i <= steps@.len(),
                        out@.len() == i,
                        forall|k: int|
                            0 <= k < i ==> (#[trigger] out@[k]).deep_view()
                                == steps@[k].deep_view(),
                    decreases steps@.len() - i,
                {
                    let m = &steps[i];
                    out.push(
                        Milestone {
                            description: m.description.clone(),
                            required_approvals: m.required_approvals,
                            completed: m.completed,
                        },
                    );
                    i = i + 1;
                }
                proof {
                    assert forall|k: int| 0 <= k < steps@.len() implies out.deep_view()[k]
                        == steps.deep_view()[k] by {
                        assert(out.deep_view()[k] == out@[k].deep_view());
                        assert(steps.deep_view()[k] == steps@[k].deep_view());
                    }
                    assert(out.deep_view() =~= steps.deep_view());
                }
                EscrowModel::Milestones { steps: out }
            },
        }
    }
}

impl Resolution {
    /// A copy with the same view.
    pub fn duplicate(&self) -> (r: Resolution)
        ensures
            r.deep_view() == self.deep_view(),
    {
        match self {
            Resolution::Release { to, share_bps } => Resolution::Release {
                to: to.clone(),
                share_bps: *share_bps,
            },
            Resolution::Refund => Resolution::Refund,
            Resolution::Split { shares } => {
                let mut out: Vec<(String, u16)> = Vec::new();
                let mut i: usize = 0;
                while i < shares.len()
                    invariant
                        0 <= i <= shares@.len(),
                        out@.len() == i,
                        forall|k: int|
                            0 <= k < i ==> (#[trigger] out@[k]).deep_view()
                                == shares@[k].deep_view(),
                    decreases shares@.len() - i,
                {
                    out.push((shares[i].0.clone(), shares[i].1));
                    i = i + 1;
                }
                proof {
                    assert forall|k: int| 0 <= k < shares@.len() implies out.deep_view()[k]
                        == shares.deep_view()[k] by {
                        assert(out.deep_view()[k] == out@[k].deep_view());
                        assert(shares.deep_view()[k] == shares@[k].deep_view());
                    }
                    assert(out.deep_view() =~= shares.deep_view());
                }
                Resolution::Split { shares: out }
            },
        }
    }
}

/// The typed answer of one query dispatch.
#[derive(Clone, Debug, PartialEq, Eq)]
pub enum QueryAnswer {
    Config(ConfigResp),
    Case(CaseResp),
    Cases(Vec<CaseResp>),
    Reputation(u64),
}

} // verus!
