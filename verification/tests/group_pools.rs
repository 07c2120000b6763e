//! The contribution-pool engine, driven as the host would drive it.

use seimoney::groups::{
    ContractError, ExecuteMsg, GroupsEngine, InstantiateMsg, QueryAnswer, QueryMsg,
};
use seimoney::host::{Coin, Env, MessageInfo, Timestamp};

const ADMIN: &str = "sei1admin";
const USER1: &str = "sei1user1";
const USER2: &str = "sei1user2";

fn env_at(seconds: u64) -> Env {
    Env { block_time: Timestamp::from_nanos(seconds * 1_000_000_000) }
}

fn info(sender: &str) -> MessageInfo {
    MessageInfo { sender: sender.to_string(), funds: vec![] }
}

fn setup_contract() -> GroupsEngine {
    let msg = InstantiateMsg {
        admin: Some(ADMIN.to_string()),
        default_denom: "usei".to_string(),
        max_participants: Some(10),
    };
    let (engine, _resp) = GroupsEngine::instantiate(&info(ADMIN), msg);
    engine
}

fn create_test_pool(engine: &mut GroupsEngine) {
    let msg = ExecuteMsg::CreatePool {
        target: Coin::new(1000, "usei"),
        max_participants: Some(10),
        memo: Some("Test pool".to_string()),
        expiry_ts: None,
    };
    engine.execute(&env_at(0), &info(USER1), msg).unwrap();
}

#[test]
fn groups_engine_instantiates() {
    let engine = setup_contract();
    assert!(!engine.config.admin.is_empty());
}

#[test]
fn simple_test_test_create_pool() {
    let mut engine = setup_contract();
    create_test_pool(&mut engine);

    match engine.query(QueryMsg::GetPool { id: 1 }).unwrap() {
        QueryAnswer::Pool(result) => {
            assert_eq!(result.creator, USER1);
            assert_eq!(result.target, Coin::new(1000, "usei"));
            assert_eq!(result.distributed, false);
            assert_eq!(result.cancelled, false);
        },
        _ => panic!("unexpected answer"),
    }
}

#[test]
fn simple_test_test_contribute() {
    let mut engine = setup_contract();
    create_test_pool(&mut engine);

    let contribute_msg = ExecuteMsg::Contribute { pool_id: 1, amount: Coin::new(10, "usei") };
    let result = engine.execute(&env_at(0), &info(USER2), contribute_msg);
    assert!(result.is_ok());

    match engine
        .query(QueryMsg::ListContributions { pool_id: 1, start_after: None, limit: None })
        .unwrap()
    {
        QueryAnswer::Contributions(result) => {
            assert_eq!(result.len(), 1);
            assert_eq!(result[0].contributor, USER2);
            assert_eq!(result[0].amount, "10");
        },
        _ => panic!("unexpected answer"),
    }
}

#[test]
fn pool_distribution_and_refund() {
    let mut engine = setup_contract();
    create_test_pool(&mut engine);

    // Reaching the target allows the creator to distribute the total.
    engine
        .execute(
            &env_at(0),
            &info(USER2),
            ExecuteMsg::Contribute { pool_id: 1, amount: Coin::new(1000, "usei") },
        )
        .unwrap();
    let resp = engine
        .execute(&env_at(0), &info(USER1), ExecuteMsg::Distribute { pool_id: 1 })
        .unwrap();
    assert_eq!(resp.messages[0].to_address, USER1);
    assert_eq!(resp.messages[0].amount, vec![Coin::new(1000, "usei")]);
    assert!(engine.pools[0].distributed);

    // A cancelled pool refunds each recorded contribution exactly.
    let mut engine = setup_contract();
    create_test_pool(&mut engine);
    engine
        .execute(
            &env_at(0),
            &info(USER2),
            ExecuteMsg::Contribute { pool_id: 1, amount: Coin::new(100, "usei") },
        )
        .unwrap();
    engine
        .execute(&env_at(0), &info(USER1), ExecuteMsg::CancelPool { pool_id: 1 })
        .unwrap();
    let resp = engine
        .execute(&env_at(0), &info(USER2), ExecuteMsg::RefundContribution { pool_id: 1 })
        .unwrap();
    assert_eq!(resp.messages[0].to_address, USER2);
    assert_eq!(resp.messages[0].amount, vec![Coin::new(100, "usei")]);
    // The row is gone, so a second refund finds nothing.
    assert_eq!(
        engine.execute(&env_at(0), &info(USER2), ExecuteMsg::RefundContribution { pool_id: 1 }),
        Err(ContractError::InvalidContribution)
    );
}

#[test]
fn repeat_contribution_overwrites_row_but_grows_total() {
    let mut engine = setup_contract();
    create_test_pool(&mut engine);

    engine
        .execute(
            &env_at(0),
            &info(USER2),
            ExecuteMsg::Contribute { pool_id: 1, amount: Coin::new(100, "usei") },
        )
        .unwrap();
    engine
        .execute(
            &env_at(0),
            &info(USER2),
            ExecuteMsg::Contribute { pool_id: 1, amount: Coin::new(30, "usei") },
        )
        .unwrap();

    // The running total keeps both amounts; the row remembers only
    // the latest; the participant is counted once.
    assert_eq!(engine.pools[0].current, 130);
    assert_eq!(engine.pools[0].participants.len(), 1);
    match engine
        .query(QueryMsg::ListContributions { pool_id: 1, start_after: None, limit: None })
        .unwrap()
    {
        QueryAnswer::Contributions(result) => {
            assert_eq!(result.len(), 1);
            assert_eq!(result[0].amount, "30");
        },
        _ => panic!("unexpected answer"),
    }
}

#[test]
fn pool_error_inputs() {
    let mut engine = setup_contract();

    // Wrong denomination and zero target.
    assert_eq!(
        engine.execute(
            &env_at(0),
            &info(USER1),
            ExecuteMsg::CreatePool {
                target: Coin::new(10, "uatom"),
                max_participants: None,
                memo: None,
                expiry_ts: None,
            }
        ),
        Err(ContractError::InvalidContribution)
    );

    // A deadline already passed.
    assert_eq!(
        engine.execute(
            &env_at(10),
            &info(USER1),
            ExecuteMsg::CreatePool {
                target: Coin::new(10, "usei"),
                max_participants: None,
                memo: None,
                expiry_ts: Some(5),
            }
        ),
        Err(ContractError::PoolExpired)
    );

    // Unknown pool.
    assert_eq!(
        engine.execute(
            &env_at(0),
            &info(USER2),
            ExecuteMsg::Contribute { pool_id: 9, amount: Coin::new(10, "usei") }
        ),
        Err(ContractError::PoolNotFound)
    );

    create_test_pool(&mut engine);

    // Only the creator distributes or cancels; the target gates the
    // distribution; an unexpired deadline blocks cancellation.
    assert_eq!(
        engine.execute(&env_at(0), &info(USER2), ExecuteMsg::Distribute { pool_id: 1 }),
        Err(ContractError::Unauthorized)
    );
    assert_eq!(
        engine.execute(&env_at(0), &info(USER1), ExecuteMsg::Distribute { pool_id: 1 }),
        Err(ContractError::InvalidPoolState)
    );
    assert_eq!(
        engine.execute(&env_at(0), &info(USER2), ExecuteMsg::RefundContribution { pool_id: 1 }),
        Err(ContractError::InvalidPoolState)
    );

    // A pool with a future deadline cannot be cancelled yet.
    engine
        .execute(
            &env_at(0),
            &info(USER1),
            ExecuteMsg::CreatePool {
                target: Coin::new(10, "usei"),
                max_participants: None,
                memo: None,
                expiry_ts: Some(100),
            },
        )
        .unwrap();
    assert_eq!(
        engine.execute(&env_at(0), &info(USER1), ExecuteMsg::CancelPool { pool_id: 2 }),
        Err(ContractError::PoolNotExpired)
    );
    // And a contribution after the deadline is rejected.
    assert_eq!(
        engine.execute(
            &env_at(100),
            &info(USER2),
            ExecuteMsg::Contribute { pool_id: 2, amount: Coin::new(1, "usei") }
        ),
        Err(ContractError::PoolExpired)
    );

    // The target caps further contributions.
    engine
        .execute(
            &env_at(0),
            &info(USER2),
            ExecuteMsg::Contribute { pool_id: 1, amount: Coin::new(1000, "usei") },
        )
        .unwrap();
    assert_eq!(
        engine.execute(
            &env_at(0),
            &info(USER2),
            ExecuteMsg::Contribute { pool_id: 1, amount: Coin::new(1, "usei") }
        ),
        Err(ContractError::TargetReached)
    );

    // A cancelled pool takes no contributions.
    engine
        .execute(&env_at(100), &info(USER1), ExecuteMsg::CancelPool { pool_id: 2 })
        .unwrap();
    assert_eq!(
        engine.execute(
            &env_at(100),
            &info(USER2),
            ExecuteMsg::Contribute { pool_id: 2, amount: Coin::new(1, "usei") }
        ),
        Err(ContractError::PoolAlreadyCancelled)
    );
}

#[test]
fn participant_cap_fills_pool() {
    let msg = InstantiateMsg {
        admin: Some(ADMIN.to_string()),
        default_denom: "usei".to_string(),
        max_participants: Some(1),
    };
    let (mut engine, _resp) = GroupsEngine::instantiate(&info(ADMIN), msg);
    create_test_pool(&mut engine);
    engine
        .execute(
            &env_at(0),
            &info(USER2),
            ExecuteMsg::Contribute { pool_id: 1, amount: Coin::new(10, "usei") },
        )
        .unwrap();
    assert_eq!(
        engine.execute(
            &env_at(0),
            &info(ADMIN),
            ExecuteMsg::Contribute { pool_id: 1, amount: Coin::new(10, "usei") }
        ),
        Err(ContractError::PoolFull)
    );
}

#[test]
fn list_pools_pages() {
    let mut engine = setup_contract();
    for _ in 0..3 {
        create_test_pool(&mut engine);
    }
    match engine
        .query(QueryMsg::ListPools { start_after: None, limit: None })
        .unwrap()
    {
        QueryAnswer::Pools(ps) => assert_eq!(ps.len(), 3),
        _ => panic!("unexpected answer"),
    }
    match engine
        .query(QueryMsg::ListPools { start_after: Some(1), limit: Some(1) })
        .unwrap()
    {
        QueryAnswer::Pools(ps) => {
            assert_eq!(ps.len(), 1);
            assert_eq!(ps[0].id, 2);
        },
        _ => panic!("unexpected answer"),
    }
}
