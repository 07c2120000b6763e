//! The savings-pot engine, driven as the host would drive it.

use seimoney::host::{Coin, Env, MessageInfo, Timestamp};
use seimoney::pots::{
    ContractError, ExecuteMsg, InstantiateMsg, PotsEngine, QueryAnswer, QueryMsg,
};

const ADMIN: &str = "sei1admin";
const USER1: &str = "sei1user1";
const USER2: &str = "sei1user2";

fn env_at(seconds: u64) -> Env {
    Env { block_time: Timestamp::from_nanos(seconds * 1_000_000_000) }
}

fn info(sender: &str) -> MessageInfo {
    MessageInfo { sender: sender.to_string(), funds: vec![] }
}

fn setup_contract() -> PotsEngine {
    let msg = InstantiateMsg { admin: Some(ADMIN.to_string()), default_denom: "usei".to_string() };
    let (engine, _resp) = PotsEngine::instantiate(&info(ADMIN), msg);
    engine
}

fn open_vacation_pot(engine: &mut PotsEngine) {
    let msg = ExecuteMsg::OpenPot {
        goal: Coin::new(5000, "usei"),
        label: Some("Vacation Fund".to_string()),
    };
    engine.execute(&env_at(0), &info(USER1), msg).unwrap();
}

#[test]
fn pots_engine_instantiates() {
    let engine = setup_contract();
    assert!(!engine.config.admin.is_empty());
}

#[test]
fn integration_test_open_pot() {
    let mut engine = setup_contract();
    open_vacation_pot(&mut engine);

    match engine.query(QueryMsg::GetPot { id: 1 }).unwrap() {
        QueryAnswer::Pot(result) => {
            assert_eq!(result.label, Some("Vacation Fund".to_string()));
            assert_eq!(result.owner, USER1);
            assert_eq!(result.goal, Coin::new(5000, "usei"));
            assert_eq!(result.broken, false);
            assert_eq!(result.closed, false);
        },
        _ => panic!("unexpected answer"),
    }
}

#[test]
fn integration_test_deposit_pot() {
    let mut engine = setup_contract();
    open_vacation_pot(&mut engine);

    let deposit_msg = ExecuteMsg::DepositPot { pot_id: 1, amount: Coin::new(1000, "usei") };
    let result = engine.execute(&env_at(0), &info(USER1), deposit_msg);
    assert!(result.is_ok());

    match engine.query(QueryMsg::GetPot { id: 1 }).unwrap() {
        QueryAnswer::Pot(result) => assert_eq!(result.current, "1000"),
        _ => panic!("unexpected answer"),
    }
}

#[test]
fn test_break_pot() {
    let mut engine = setup_contract();
    open_vacation_pot(&mut engine);
    engine
        .execute(
            &env_at(0),
            &info(USER1),
            ExecuteMsg::DepositPot { pot_id: 1, amount: Coin::new(1000, "usei") },
        )
        .unwrap();

    let result = engine.execute(&env_at(0), &info(USER1), ExecuteMsg::BreakPot { pot_id: 1 });
    assert!(result.is_ok());
    let resp = result.unwrap();
    assert_eq!(resp.messages[0].to_address, USER1);
    assert_eq!(resp.messages[0].amount, vec![Coin::new(1000, "usei")]);

    match engine.query(QueryMsg::GetPot { id: 1 }).unwrap() {
        QueryAnswer::Pot(result) => assert_eq!(result.broken, true),
        _ => panic!("unexpected answer"),
    }
}

#[test]
fn test_close_pot() {
    let mut engine = setup_contract();
    open_vacation_pot(&mut engine);
    engine
        .execute(
            &env_at(0),
            &info(USER1),
            ExecuteMsg::DepositPot { pot_id: 1, amount: Coin::new(5000, "usei") },
        )
        .unwrap();

    let result = engine.execute(&env_at(0), &info(USER1), ExecuteMsg::ClosePot { pot_id: 1 });
    assert!(result.is_ok());

    match engine.query(QueryMsg::GetPot { id: 1 }).unwrap() {
        QueryAnswer::Pot(result) => assert_eq!(result.closed, true),
        _ => panic!("unexpected answer"),
    }
}

#[test]
fn test_cannot_break_unbreakable_pot() {
    let mut engine = setup_contract();
    open_vacation_pot(&mut engine);

    // Nothing saved yet, so there is nothing to take back.
    let result = engine.execute(&env_at(0), &info(USER1), ExecuteMsg::BreakPot { pot_id: 1 });
    assert!(result.is_err());
}

#[test]
fn test_list_pots() {
    let mut engine = setup_contract();
    for i in 1..=3u64 {
        let msg = ExecuteMsg::OpenPot {
            goal: Coin::new(1000 * i as u128, "usei"),
            label: Some(format!("Pot {}", i)),
        };
        engine.execute(&env_at(0), &info(USER1), msg).unwrap();
    }

    match engine
        .query(QueryMsg::ListAllPots { start_after: None, limit: None })
        .unwrap()
    {
        QueryAnswer::Pots(result) => assert_eq!(result.len(), 3),
        _ => panic!("unexpected answer"),
    }
}

#[test]
fn test_list_owner_pots() {
    let mut engine = setup_contract();
    for (i, user) in [USER1, USER2].iter().enumerate() {
        let msg = ExecuteMsg::OpenPot {
            goal: Coin::new(1000 * (i + 1) as u128, "usei"),
            label: Some(format!("Pot for {}", user)),
        };
        engine.execute(&env_at(0), &info(user), msg).unwrap();
    }

    match engine
        .query(QueryMsg::ListPotsByOwner {
            owner: USER1.to_string(),
            start_after: None,
            limit: None,
        })
        .unwrap()
    {
        QueryAnswer::Pots(result) => {
            assert_eq!(result.len(), 1);
            assert_eq!(result[0].owner, USER1);
        },
        _ => panic!("unexpected answer"),
    }
}

#[test]
fn pots_config_is_stored() {
    let engine = setup_contract();
    assert_eq!(engine.config.default_denom, "usei");
}

#[test]
fn simple_test_test_open_pot() {
    let mut engine = setup_contract();
    open_vacation_pot(&mut engine);

    match engine.query(QueryMsg::GetPot { id: 1 }).unwrap() {
        QueryAnswer::Pot(result) => {
            assert_eq!(result.owner, USER1);
            assert_eq!(result.goal, Coin::new(5000, "usei"));
            assert_eq!(result.broken, false);
            assert_eq!(result.closed, false);
        },
        _ => panic!("unexpected answer"),
    }
}

#[test]
fn simple_test_test_deposit_pot() {
    let mut engine = setup_contract();
    open_vacation_pot(&mut engine);

    let result = engine.execute(
        &env_at(0),
        &info(USER1),
        ExecuteMsg::DepositPot { pot_id: 1, amount: Coin::new(1000, "usei") },
    );
    assert!(result.is_ok());

    match engine.query(QueryMsg::GetPot { id: 1 }).unwrap() {
        QueryAnswer::Pot(result) => assert_eq!(result.current, "1000"),
        _ => panic!("unexpected answer"),
    }
}

#[test]
fn pot_error_inputs() {
    let mut engine = setup_contract();

    // Wrong denomination and zero goal.
    assert_eq!(
        engine.execute(
            &env_at(0),
            &info(USER1),
            ExecuteMsg::OpenPot { goal: Coin::new(10, "uatom"), label: None }
        ),
        Err(ContractError::InvalidDenom)
    );
    assert_eq!(
        engine.execute(
            &env_at(0),
            &info(USER1),
            ExecuteMsg::OpenPot { goal: Coin::new(0, "usei"), label: None }
        ),
        Err(ContractError::InvalidGoalAmount)
    );

    // Unknown pot.
    assert_eq!(
        engine.execute(
            &env_at(0),
            &info(USER1),
            ExecuteMsg::DepositPot { pot_id: 4, amount: Coin::new(1, "usei") }
        ),
        Err(ContractError::PotNotFound)
    );

    open_vacation_pot(&mut engine);

    // Zero deposits and wrong denominations are rejected.
    assert_eq!(
        engine.execute(
            &env_at(0),
            &info(USER1),
            ExecuteMsg::DepositPot { pot_id: 1, amount: Coin::new(0, "usei") }
        ),
        Err(ContractError::InvalidDepositAmount)
    );
    assert_eq!(
        engine.execute(
            &env_at(0),
            &info(USER1),
            ExecuteMsg::DepositPot { pot_id: 1, amount: Coin::new(1, "uatom") }
        ),
        Err(ContractError::InvalidDenom)
    );

    // Only the owner breaks or closes; the goal gates closing.
    assert_eq!(
        engine.execute(&env_at(0), &info(USER2), ExecuteMsg::BreakPot { pot_id: 1 }),
        Err(ContractError::Unauthorized)
    );
    assert_eq!(
        engine.execute(&env_at(0), &info(USER1), ExecuteMsg::BreakPot { pot_id: 1 }),
        Err(ContractError::PotEmpty)
    );
    assert_eq!(
        engine.execute(&env_at(0), &info(USER1), ExecuteMsg::ClosePot { pot_id: 1 }),
        Err(ContractError::GoalNotReached)
    );

    // A settled pot takes no further commands.
    engine
        .execute(
            &env_at(0),
            &info(USER1),
            ExecuteMsg::DepositPot { pot_id: 1, amount: Coin::new(5000, "usei") },
        )
        .unwrap();
    engine.execute(&env_at(0), &info(USER1), ExecuteMsg::ClosePot { pot_id: 1 }).unwrap();
    assert_eq!(
        engine.execute(
            &env_at(0),
            &info(USER1),
            ExecuteMsg::DepositPot { pot_id: 1, amount: Coin::new(1, "usei") }
        ),
        Err(ContractError::PotAlreadyClosed)
    );

    // A broken pot likewise.
    engine
        .execute(
            &env_at(0),
            &info(USER2),
            ExecuteMsg::OpenPot { goal: Coin::new(100, "usei"), label: None },
        )
        .unwrap();
    engine
        .execute(
            &env_at(0),
            &info(USER2),
            ExecuteMsg::DepositPot { pot_id: 2, amount: Coin::new(10, "usei") },
        )
        .unwrap();
    engine.execute(&env_at(0), &info(USER2), ExecuteMsg::BreakPot { pot_id: 2 }).unwrap();
    assert_eq!(
        engine.execute(
            &env_at(0),
            &info(USER2),
            ExecuteMsg::DepositPot { pot_id: 2, amount: Coin::new(1, "usei") }
        ),
        Err(ContractError::PotAlreadyBroken)
    );
}
