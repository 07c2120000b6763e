//! The escrow case engine, driven as the host would drive it.

use seimoney::host::{Coin, Env, MessageInfo, Timestamp};
use seimoney::risk_escrow::contract::EscrowEngine;
use seimoney::risk_escrow::error::ContractError;
use seimoney::risk_escrow::msg::{
    CaseStatus, EscrowModel, ExecuteMsg, InstantiateMsg, QueryAnswer, QueryMsg, Resolution,
    TimeStage,
};

const ADMIN: &str = "sei1admin";
const USER1: &str = "sei1user1";
const USER2: &str = "sei1user2";
const ARBITRATOR: &str = "sei1arbitrator";

fn env_at(seconds: u64) -> Env {
    Env { block_time: Timestamp::from_nanos(seconds * 1_000_000_000) }
}

fn info(sender: &str) -> MessageInfo {
    MessageInfo { sender: sender.to_string(), funds: vec![] }
}

fn info_with(sender: &str, coins: Vec<Coin>) -> MessageInfo {
    MessageInfo { sender: sender.to_string(), funds: coins }
}

fn setup_contract() -> EscrowEngine {
    let msg = InstantiateMsg {
        admin: Some(ADMIN.to_string()),
        default_denom: "usei".to_string(),
        min_approval_threshold: Some(2),
    };
    let (engine, _resp) = EscrowEngine::instantiate(&info(ADMIN), msg);
    engine
}

fn open_standard_case(engine: &mut EscrowEngine) {
    let msg = ExecuteMsg::OpenCase {
        parties: vec![USER1.to_string(), USER2.to_string()],
        amount: Coin::new(1000, "usei"),
        model: EscrowModel::MultiSig { threshold: 2 },
        expiry_ts: Some(1000000),
        remark: Some("Test escrow case".to_string()),
    };
    engine
        .execute(&env_at(0), &info_with(USER1, vec![Coin::new(1000, "usei")]), msg)
        .unwrap();
}

fn case_status(engine: &EscrowEngine, id: u64) -> CaseStatus {
    match engine.query(QueryMsg::GetCase { id }).unwrap() {
        QueryAnswer::Case(c) => c.status,
        _ => panic!("unexpected answer"),
    }
}

#[test]
fn integration_test_instantiate() {
    let engine = setup_contract();
    match engine.query(QueryMsg::Config {}).unwrap() {
        QueryAnswer::Config(c) => {
            assert_eq!(c.admin, ADMIN);
            assert_eq!(c.default_denom, "usei");
            assert_eq!(c.min_approval_threshold, 2);
        },
        _ => panic!("unexpected answer"),
    }
}

#[test]
fn integration_test_open_case() {
    let mut engine = setup_contract();

    let msg = ExecuteMsg::OpenCase {
        parties: vec![USER1.to_string(), USER2.to_string()],
        amount: Coin::new(1000, "usei"),
        model: EscrowModel::MultiSig { threshold: 2 },
        expiry_ts: Some(1000000),
        remark: Some("Test escrow case".to_string()),
    };
    let result = engine.execute(
        &env_at(0),
        &info_with(USER1, vec![Coin::new(1000, "usei")]),
        msg,
    );
    assert!(result.is_ok());

    match engine.query(QueryMsg::GetCase { id: 1 }).unwrap() {
        QueryAnswer::Case(result) => {
            assert_eq!(result.parties[0], USER1);
            assert_eq!(result.parties[1], USER2);
            assert_eq!(result.amount, Coin::new(1000, "usei"));
            assert_eq!(result.status, CaseStatus::Open);
        },
        _ => panic!("unexpected answer"),
    }
}

#[test]
fn test_dispute_case() {
    let mut engine = setup_contract();
    open_standard_case(&mut engine);

    let dispute_msg = ExecuteMsg::Dispute {
        case_id: 1,
        reason: Some("Item not as described".to_string()),
    };
    let result = engine.execute(&env_at(0), &info(USER1), dispute_msg);
    assert!(result.is_ok());
    assert_eq!(case_status(&engine, 1), CaseStatus::Disputed);
}

#[test]
fn test_list_cases() {
    let mut engine = setup_contract();
    for i in 1..=3u64 {
        let msg = ExecuteMsg::OpenCase {
            parties: vec![USER1.to_string(), USER2.to_string()],
            amount: Coin::new(1000 * i as u128, "usei"),
            model: EscrowModel::MultiSig { threshold: 2 },
            expiry_ts: Some(1000000),
            remark: Some(format!("Test case {}", i)),
        };
        engine
            .execute(
                &env_at(0),
                &info_with(USER1, vec![Coin::new(1000 * i as u128, "usei")]),
                msg,
            )
            .unwrap();
    }

    match engine
        .query(QueryMsg::ListCases { start_after: None, limit: None })
        .unwrap()
    {
        QueryAnswer::Cases(result) => assert_eq!(result.len(), 3),
        _ => panic!("unexpected answer"),
    }
}

#[test]
fn simple_test_test_open_case() {
    let mut engine = setup_contract();

    let msg = ExecuteMsg::OpenCase {
        parties: vec![USER1.to_string(), USER2.to_string()],
        amount: Coin::new(1000, "usei"),
        model: EscrowModel::MultiSig { threshold: 2 },
        expiry_ts: None,
        remark: Some("Test escrow case".to_string()),
    };
    let result = engine.execute(
        &env_at(0),
        &info_with(USER1, vec![Coin::new(1000, "usei")]),
        msg,
    );
    assert!(result.is_ok());

    match engine.query(QueryMsg::GetCase { id: 1 }).unwrap() {
        QueryAnswer::Case(result) => {
            assert_eq!(result.parties[0], USER1);
            assert_eq!(result.parties[1], USER2);
            assert_eq!(result.amount, Coin::new(1000, "usei"));
            assert_eq!(result.status, CaseStatus::Open);
        },
        _ => panic!("unexpected answer"),
    }
}

#[test]
fn simple_test_test_approve_case() {
    let mut engine = setup_contract();

    let open_msg = ExecuteMsg::OpenCase {
        parties: vec![USER1.to_string(), USER2.to_string()],
        amount: Coin::new(1000, "usei"),
        model: EscrowModel::MultiSig { threshold: 2 },
        expiry_ts: None,
        remark: Some("Test escrow case".to_string()),
    };
    engine
        .execute(&env_at(0), &info_with(USER1, vec![Coin::new(1000, "usei")]), open_msg)
        .unwrap();

    // Approve by USER2: only one of two approvals, so still Open.
    let result = engine.execute(&env_at(0), &info(USER2), ExecuteMsg::Approve { case_id: 1 });
    assert!(result.is_ok());
    assert_eq!(case_status(&engine, 1), CaseStatus::Open);

    // Approve by USER1 as well: now Approved.
    let result2 = engine.execute(&env_at(0), &info(USER1), ExecuteMsg::Approve { case_id: 1 });
    assert!(result2.is_ok());
    assert_eq!(case_status(&engine, 1), CaseStatus::Approved);
}

#[test]
fn escrow_happy_path_scenario() {
    // OpenCase by the parties, both approve, a dispute, an
    // administrator resolution, and a refund of the full amount to the
    // first party.
    let mut engine = setup_contract();

    let open_msg = ExecuteMsg::OpenCase {
        parties: vec![USER1.to_string(), USER2.to_string()],
        amount: Coin::new(1000, "usei"),
        model: EscrowModel::MultiSig { threshold: 2 },
        expiry_ts: None,
        remark: None,
    };
    engine
        .execute(&env_at(0), &info_with(USER1, vec![Coin::new(1000, "usei")]), open_msg)
        .unwrap();
    assert_eq!(engine.cases[0].id, 1);
    assert_eq!(case_status(&engine, 1), CaseStatus::Open);

    // Approve by B: still Open (one of two).
    engine.execute(&env_at(0), &info(USER2), ExecuteMsg::Approve { case_id: 1 }).unwrap();
    assert_eq!(case_status(&engine, 1), CaseStatus::Open);

    // Approve by A: Approved.
    engine.execute(&env_at(0), &info(USER1), ExecuteMsg::Approve { case_id: 1 }).unwrap();
    assert_eq!(case_status(&engine, 1), CaseStatus::Approved);

    // Dispute by A with a reason.
    engine
        .execute(
            &env_at(0),
            &info(USER1),
            ExecuteMsg::Dispute { case_id: 1, reason: Some("x".to_string()) },
        )
        .unwrap();
    assert_eq!(case_status(&engine, 1), CaseStatus::Disputed);

    // Resolve by the administrator with a refund decision.
    engine
        .execute(
            &env_at(0),
            &info(ADMIN),
            ExecuteMsg::Resolve { case_id: 1, decision: Resolution::Refund },
        )
        .unwrap();
    assert_eq!(case_status(&engine, 1), CaseStatus::Resolved);

    // Refund by the administrator: 1000 usei go to parties[0] = A.
    let resp = engine
        .execute(&env_at(0), &info(ADMIN), ExecuteMsg::Refund { case_id: 1 })
        .unwrap();
    assert_eq!(resp.messages.len(), 1);
    assert_eq!(resp.messages[0].to_address, USER1);
    assert_eq!(resp.messages[0].amount, vec![Coin::new(1000, "usei")]);
}

#[test]
fn duplicate_approval_is_no_op() {
    let mut engine = setup_contract();
    open_standard_case(&mut engine);

    engine.execute(&env_at(0), &info(USER1), ExecuteMsg::Approve { case_id: 1 }).unwrap();
    // The same party approving again changes nothing and does not
    // double-count toward the threshold.
    let resp = engine
        .execute(&env_at(0), &info(USER1), ExecuteMsg::Approve { case_id: 1 })
        .unwrap();
    assert_eq!(resp.attributes[0].1, "already_approved");
    assert_eq!(case_status(&engine, 1), CaseStatus::Open);
    assert_eq!(engine.cases[0].approvals.len(), 1);
}

#[test]
fn threshold_is_order_independent() {
    // Both orders of the two approvals end in Approved.
    for first_user2 in [false, true] {
        let mut engine = setup_contract();
        open_standard_case(&mut engine);
        let (a, b) = if first_user2 { (USER2, USER1) } else { (USER1, USER2) };
        engine.execute(&env_at(0), &info(a), ExecuteMsg::Approve { case_id: 1 }).unwrap();
        assert_eq!(case_status(&engine, 1), CaseStatus::Open);
        engine.execute(&env_at(0), &info(b), ExecuteMsg::Approve { case_id: 1 }).unwrap();
        assert_eq!(case_status(&engine, 1), CaseStatus::Approved);
    }
}

#[test]
fn resolved_case_is_terminal() {
    let mut engine = setup_contract();
    open_standard_case(&mut engine);
    engine
        .execute(&env_at(0), &info(USER1), ExecuteMsg::Dispute { case_id: 1, reason: None })
        .unwrap();
    engine
        .execute(
            &env_at(0),
            &info(ADMIN),
            ExecuteMsg::Resolve { case_id: 1, decision: Resolution::Refund },
        )
        .unwrap();

    // No mutation of a Resolved case is accepted.
    let approve = engine.execute(&env_at(0), &info(USER1), ExecuteMsg::Approve { case_id: 1 });
    assert_eq!(approve, Err(ContractError::InvalidEscrowModel));
    let dispute = engine.execute(
        &env_at(0),
        &info(USER1),
        ExecuteMsg::Dispute { case_id: 1, reason: None },
    );
    assert_eq!(dispute, Err(ContractError::InvalidEscrowModel));
    let resolve = engine.execute(
        &env_at(0),
        &info(ADMIN),
        ExecuteMsg::Resolve { case_id: 1, decision: Resolution::Refund },
    );
    assert_eq!(resolve, Err(ContractError::CaseNotInDispute));
    assert_eq!(case_status(&engine, 1), CaseStatus::Resolved);
}

#[test]
fn escrow_error_inputs() {
    let mut engine = setup_contract();

    // Wrong denomination.
    let bad_denom = ExecuteMsg::OpenCase {
        parties: vec![USER1.to_string(), USER2.to_string()],
        amount: Coin::new(1000, "uatom"),
        model: EscrowModel::MultiSig { threshold: 2 },
        expiry_ts: None,
        remark: None,
    };
    assert_eq!(
        engine.execute(&env_at(0), &info(USER1), bad_denom),
        Err(ContractError::InvalidDenom)
    );

    // Zero amount.
    let zero = ExecuteMsg::OpenCase {
        parties: vec![USER1.to_string(), USER2.to_string()],
        amount: Coin::new(0, "usei"),
        model: EscrowModel::MultiSig { threshold: 2 },
        expiry_ts: None,
        remark: None,
    };
    assert_eq!(engine.execute(&env_at(0), &info(USER1), zero), Err(ContractError::InvalidAmount));

    // Too few parties.
    let solo = ExecuteMsg::OpenCase {
        parties: vec![USER1.to_string()],
        amount: Coin::new(1000, "usei"),
        model: EscrowModel::MultiSig { threshold: 2 },
        expiry_ts: None,
        remark: None,
    };
    assert_eq!(engine.execute(&env_at(0), &info(USER1), solo), Err(ContractError::InvalidParty));

    // A deadline already passed.
    let stale = ExecuteMsg::OpenCase {
        parties: vec![USER1.to_string(), USER2.to_string()],
        amount: Coin::new(1000, "usei"),
        model: EscrowModel::MultiSig { threshold: 2 },
        expiry_ts: Some(5),
        remark: None,
    };
    assert_eq!(engine.execute(&env_at(10), &info(USER1), stale), Err(ContractError::CaseExpired));

    // Unknown case.
    assert_eq!(
        engine.execute(&env_at(0), &info(USER1), ExecuteMsg::Approve { case_id: 7 }),
        Err(ContractError::CaseNotFound)
    );

    open_standard_case(&mut engine);

    // A stranger may not approve or dispute.
    assert_eq!(
        engine.execute(&env_at(0), &info(ARBITRATOR), ExecuteMsg::Approve { case_id: 1 }),
        Err(ContractError::InvalidParty)
    );
    assert_eq!(
        engine.execute(
            &env_at(0),
            &info(ARBITRATOR),
            ExecuteMsg::Dispute { case_id: 1, reason: None }
        ),
        Err(ContractError::InvalidParty)
    );

    // Resolve needs a dispute and an authorized caller; release and
    // refund need the administrator and a resolved case.
    assert_eq!(
        engine.execute(
            &env_at(0),
            &info(USER1),
            ExecuteMsg::Resolve { case_id: 1, decision: Resolution::Refund }
        ),
        Err(ContractError::CaseNotInDispute)
    );
    assert_eq!(
        engine.execute(
            &env_at(0),
            &info(ARBITRATOR),
            ExecuteMsg::Resolve { case_id: 1, decision: Resolution::Refund }
        ),
        Err(ContractError::Unauthorized)
    );
    assert_eq!(
        engine.execute(
            &env_at(0),
            &info(USER1),
            ExecuteMsg::Release { case_id: 1, to: USER2.to_string(), share_bps: None }
        ),
        Err(ContractError::Unauthorized)
    );
    assert_eq!(
        engine.execute(
            &env_at(0),
            &info(ADMIN),
            ExecuteMsg::Release { case_id: 1, to: USER2.to_string(), share_bps: None }
        ),
        Err(ContractError::InvalidEscrowModel)
    );
    assert_eq!(
        engine.execute(&env_at(0), &info(ADMIN), ExecuteMsg::Refund { case_id: 1 }),
        Err(ContractError::InvalidEscrowModel)
    );
}

#[test]
fn release_truncates_toward_contract() {
    let mut engine = setup_contract();
    open_standard_case(&mut engine);
    engine
        .execute(&env_at(0), &info(USER1), ExecuteMsg::Dispute { case_id: 1, reason: None })
        .unwrap();
    engine
        .execute(
            &env_at(0),
            &info(ADMIN),
            ExecuteMsg::Resolve {
                case_id: 1,
                decision: Resolution::Release { to: USER2.to_string(), share_bps: 3333 },
            },
        )
        .unwrap();

    // 1000 * 3333 / 10000 = 333 (truncated), in the contract's favour.
    let resp = engine
        .execute(
            &env_at(0),
            &info(ADMIN),
            ExecuteMsg::Release { case_id: 1, to: USER2.to_string(), share_bps: Some(3333) },
        )
        .unwrap();
    assert_eq!(resp.messages[0].to_address, USER2);
    assert_eq!(resp.messages[0].amount, vec![Coin::new(333, "usei")]);

    // An over-full share is rejected.
    let over = engine.execute(
        &env_at(0),
        &info(ADMIN),
        ExecuteMsg::Release { case_id: 1, to: USER2.to_string(), share_bps: Some(10001) },
    );
    assert_eq!(over, Err(ContractError::InvalidAmount));
}

#[test]
fn list_cases_pages_are_deterministic() {
    let mut engine = setup_contract();
    for i in 1..=5u64 {
        let msg = ExecuteMsg::OpenCase {
            parties: vec![USER1.to_string(), USER2.to_string()],
            amount: Coin::new(100 * i as u128, "usei"),
            model: EscrowModel::MultiSig { threshold: 2 },
            expiry_ts: None,
            remark: None,
        };
        engine.execute(&env_at(0), &info(USER1), msg).unwrap();
    }

    let page1 = engine.list_cases(Some(2), Some(2));
    let page2 = engine.list_cases(Some(2), Some(2));
    assert_eq!(page1, page2);
    assert_eq!(page1.len(), 2);
    assert_eq!(page1[0].id, 3);
    assert_eq!(page1[1].id, 4);
}

#[test]
fn first_stage_rule_gates_approval() {
    // A time-tiered case reads its required count from the first
    // stage; one approval suffices here.
    let mut engine = setup_contract();
    let msg = ExecuteMsg::OpenCase {
        parties: vec![USER1.to_string(), USER2.to_string()],
        amount: Coin::new(1000, "usei"),
        model: EscrowModel::TimeTiered {
            stages: vec![
                TimeStage { duration: 3600, required_approvals: 1 },
                TimeStage { duration: 7200, required_approvals: 2 },
            ],
        },
        expiry_ts: None,
        remark: None,
    };
    engine.execute(&env_at(0), &info(USER1), msg).unwrap();
    engine.execute(&env_at(0), &info(USER2), ExecuteMsg::Approve { case_id: 1 }).unwrap();
    assert_eq!(case_status(&engine, 1), CaseStatus::Approved);

    // A model with no first stage cannot gate an approval: the
    // attempt is rejected and the case is unchanged.
    let msg = ExecuteMsg::OpenCase {
        parties: vec![USER1.to_string(), USER2.to_string()],
        amount: Coin::new(1000, "usei"),
        model: EscrowModel::Milestones { steps: vec![] },
        expiry_ts: None,
        remark: None,
    };
    engine.execute(&env_at(0), &info(USER1), msg).unwrap();
    assert_eq!(
        engine.execute(&env_at(0), &info(USER1), ExecuteMsg::Approve { case_id: 2 }),
        Err(ContractError::InvalidEscrowModel)
    );
    assert_eq!(case_status(&engine, 2), CaseStatus::Open);
    assert!(engine.cases[1].approvals.is_empty());
}
