//! The vault accounting engine, driven as the host would drive it.

use seimoney::host::{Coin, Env, MessageInfo, Timestamp};
use seimoney::vaults::contract::VaultsEngine;
use seimoney::vaults::error::ContractError;
use seimoney::vaults::msg::{
    AllocationLeg, AllocationPlan, ExecuteMsg, InstantiateMsg, ProtocolType, QueryAnswer,
    QueryMsg, StrategyConfig,
};
use seimoney::vaults::state::{ShareEntry, Vault};

const ADMIN: &str = "sei1admin";
const USER1: &str = "sei1user1";
const USER2: &str = "sei1user2";

fn env_at(seconds: u64) -> Env {
    Env { block_time: Timestamp::from_nanos(seconds * 1_000_000_000) }
}

fn info(sender: &str) -> MessageInfo {
    MessageInfo { sender: sender.to_string(), funds: vec![] }
}

fn setup_contract() -> VaultsEngine {
    let msg = InstantiateMsg {
        admin: Some(ADMIN.to_string()),
        default_denom: "usei".to_string(),
        max_fee_bps: Some(1000),
    };
    let (engine, _resp) = VaultsEngine::instantiate(&info(ADMIN), msg);
    engine
}

fn create_standard_vault(engine: &mut VaultsEngine) {
    let msg = ExecuteMsg::CreateVault {
        label: "Conservative Vault".to_string(),
        denom: "usei".to_string(),
        strategy: StrategyConfig::Conservative,
        fee_bps: Some(100),
    };
    engine.execute(&env_at(0), &info(ADMIN), msg).unwrap();
}

fn user_shares_text(engine: &VaultsEngine, vault_id: u64, address: &str) -> String {
    match engine
        .query(QueryMsg::UserPosition { vault_id, address: address.to_string() })
        .unwrap()
    {
        QueryAnswer::Position(p) => p.shares,
        _ => panic!("unexpected answer"),
    }
}

#[test]
fn simple_test_test_instantiate() {
    let engine = setup_contract();
    assert!(!engine.config.admin.is_empty());
}

#[test]
fn simple_test_test_create_vault() {
    let mut engine = setup_contract();

    let msg = ExecuteMsg::CreateVault {
        label: "Conservative Vault".to_string(),
        denom: "usei".to_string(),
        strategy: StrategyConfig::Conservative,
        fee_bps: Some(100),
    };
    let result = engine.execute(&env_at(0), &info(ADMIN), msg);
    assert!(result.is_ok());

    match engine.query(QueryMsg::GetVault { id: 1 }).unwrap() {
        QueryAnswer::Vault(result) => {
            assert_eq!(result.label, "Conservative Vault");
            assert_eq!(result.denom, "usei");
            assert_eq!(result.fee_bps, 100);
        },
        _ => panic!("unexpected answer"),
    }
}

#[test]
fn simple_test_test_deposit() {
    let mut engine = setup_contract();
    create_standard_vault(&mut engine);

    let deposit_msg = ExecuteMsg::Deposit { vault_id: 1, amount: Coin::new(1000, "usei") };
    let result = engine.execute(&env_at(0), &info(USER1), deposit_msg);
    assert!(result.is_ok());

    assert_eq!(user_shares_text(&engine, 1, USER1), "1000");
}

#[test]
fn vault_round_trip_scenario() {
    // CreateVault, deposit 1000, withdraw 500 twice: the payout
    // mirrors the shares at a one-to-one price, the position empties
    // and disappears, and the locked value returns to zero.
    let mut engine = setup_contract();
    create_standard_vault(&mut engine);

    engine
        .execute(
            &env_at(0),
            &info(USER1),
            ExecuteMsg::Deposit { vault_id: 1, amount: Coin::new(1000, "usei") },
        )
        .unwrap();
    assert_eq!(engine.vaults[0].tvl, 1000);
    assert_eq!(engine.vaults[0].total_shares, 1000);
    assert_eq!(user_shares_text(&engine, 1, USER1), "1000");

    let resp = engine
        .execute(
            &env_at(0),
            &info(USER1),
            ExecuteMsg::Withdraw { vault_id: 1, shares: "500".to_string() },
        )
        .unwrap();
    assert_eq!(resp.messages[0].to_address, USER1);
    assert_eq!(resp.messages[0].amount, vec![Coin::new(500, "usei")]);
    assert_eq!(engine.vaults[0].tvl, 500);
    assert_eq!(engine.vaults[0].total_shares, 500);
    assert_eq!(user_shares_text(&engine, 1, USER1), "500");

    let resp2 = engine
        .execute(
            &env_at(0),
            &info(USER1),
            ExecuteMsg::Withdraw { vault_id: 1, shares: "500".to_string() },
        )
        .unwrap();
    assert_eq!(resp2.messages[0].amount, vec![Coin::new(500, "usei")]);
    assert_eq!(engine.vaults[0].tvl, 0);
    assert_eq!(engine.vaults[0].total_shares, 0);
    // The position record is deleted with the last share.
    assert!(engine.shares.is_empty());
    assert!(engine.positions.is_empty());
    assert_eq!(user_shares_text(&engine, 1, USER1), "0");
}

#[test]
fn bootstrap_and_proportional_pricing() {
    // The first deposit into an empty vault mints one share per unit.
    let mut engine = setup_contract();
    create_standard_vault(&mut engine);
    engine
        .execute(
            &env_at(0),
            &info(USER1),
            ExecuteMsg::Deposit { vault_id: 1, amount: Coin::new(777, "usei") },
        )
        .unwrap();
    assert_eq!(engine.vaults[0].total_shares, 777);
    assert_eq!(user_shares_text(&engine, 1, USER1), "777");

    // Into a vault holding 1000 against 500 shares, a deposit mints
    // floor(amount * 500 / 1000) shares.
    let mut engine = setup_contract();
    create_standard_vault(&mut engine);
    let mut vault = engine.vaults.remove(0);
    vault.tvl = 1000;
    vault.total_shares = 500;
    engine.vaults.insert(0, vault);
    engine.shares.push(ShareEntry {
        vault_id: 1,
        address: USER2.to_string(),
        shares: 500,
    });

    engine
        .execute(
            &env_at(0),
            &info(USER1),
            ExecuteMsg::Deposit { vault_id: 1, amount: Coin::new(333, "usei") },
        )
        .unwrap();
    // floor(333 * 500 / 1000) = 166.
    assert_eq!(user_shares_text(&engine, 1, USER1), "166");
    assert_eq!(engine.vaults[0].total_shares, 666);
    assert_eq!(engine.vaults[0].tvl, 1333);
}

#[test]
fn conservation_across_operations() {
    // After every deposit and withdrawal, the share rows of the vault
    // sum exactly to its recorded total.
    let mut engine = setup_contract();
    create_standard_vault(&mut engine);

    let steps: Vec<(bool, &str, u128)> = vec![
        (true, USER1, 1000),
        (true, USER2, 250),
        (false, USER1, 400),
        (true, USER1, 125),
        (false, USER2, 250),
    ];
    for (is_deposit, user, amount) in steps {
        if is_deposit {
            engine
                .execute(
                    &env_at(0),
                    &info(user),
                    ExecuteMsg::Deposit { vault_id: 1, amount: Coin::new(amount, "usei") },
                )
                .unwrap();
        } else {
            engine
                .execute(
                    &env_at(0),
                    &info(user),
                    ExecuteMsg::Withdraw { vault_id: 1, shares: format!("{}", amount) },
                )
                .unwrap();
        }
        let summed: u128 = engine
            .shares
            .iter()
            .filter(|e| e.vault_id == 1)
            .map(|e| e.shares)
            .sum();
        assert_eq!(summed, engine.vaults[0].total_shares);
        assert_eq!(engine.vaults[0].total_shares == 0, engine.vaults[0].tvl == 0);
    }
}

#[test]
fn insufficient_withdrawal_mutates_nothing() {
    let mut engine = setup_contract();
    create_standard_vault(&mut engine);
    engine
        .execute(
            &env_at(0),
            &info(USER1),
            ExecuteMsg::Deposit { vault_id: 1, amount: Coin::new(100, "usei") },
        )
        .unwrap();

    let before_tvl = engine.vaults[0].tvl;
    let before_total = engine.vaults[0].total_shares;
    let r = engine.execute(
        &env_at(0),
        &info(USER1),
        ExecuteMsg::Withdraw { vault_id: 1, shares: "101".to_string() },
    );
    assert_eq!(r, Err(ContractError::InsufficientShares));
    assert_eq!(engine.vaults[0].tvl, before_tvl);
    assert_eq!(engine.vaults[0].total_shares, before_total);
    assert_eq!(user_shares_text(&engine, 1, USER1), "100");

    // An account with no shares at all fails the same way.
    let r2 = engine.execute(
        &env_at(0),
        &info(USER2),
        ExecuteMsg::Withdraw { vault_id: 1, shares: "1".to_string() },
    );
    assert_eq!(r2, Err(ContractError::InsufficientShares));
}

#[test]
fn vault_error_inputs() {
    let mut engine = setup_contract();

    // Only the administrator creates vaults.
    let msg = ExecuteMsg::CreateVault {
        label: "v".to_string(),
        denom: "usei".to_string(),
        strategy: StrategyConfig::Balanced,
        fee_bps: None,
    };
    assert_eq!(engine.execute(&env_at(0), &info(USER1), msg), Err(ContractError::Unauthorized));

    // A fee above the ceiling is rejected.
    let msg = ExecuteMsg::CreateVault {
        label: "v".to_string(),
        denom: "usei".to_string(),
        strategy: StrategyConfig::Balanced,
        fee_bps: Some(1001),
    };
    assert_eq!(engine.execute(&env_at(0), &info(ADMIN), msg), Err(ContractError::InvalidFee));

    // A custom strategy allocating more than the whole is rejected.
    let heavy = AllocationPlan {
        legs: vec![
            AllocationLeg {
                protocol: ProtocolType::Staking,
                weight_bps: 6000,
                target_amount: "0".to_string(),
            },
            AllocationLeg {
                protocol: ProtocolType::Lending,
                weight_bps: 5000,
                target_amount: "0".to_string(),
            },
        ],
    };
    let msg = ExecuteMsg::CreateVault {
        label: "v".to_string(),
        denom: "usei".to_string(),
        strategy: StrategyConfig::Custom { allocations: heavy.clone() },
        fee_bps: None,
    };
    assert_eq!(
        engine.execute(&env_at(0), &info(ADMIN), msg),
        Err(ContractError::AllocationExceeds100)
    );

    create_standard_vault(&mut engine);

    // Unknown vault, wrong denomination, zero amount.
    assert_eq!(
        engine.execute(
            &env_at(0),
            &info(USER1),
            ExecuteMsg::Deposit { vault_id: 9, amount: Coin::new(10, "usei") }
        ),
        Err(ContractError::VaultNotFound)
    );
    assert_eq!(
        engine.execute(
            &env_at(0),
            &info(USER1),
            ExecuteMsg::Deposit { vault_id: 1, amount: Coin::new(10, "uatom") }
        ),
        Err(ContractError::InvalidDenom)
    );
    assert_eq!(
        engine.execute(
            &env_at(0),
            &info(USER1),
            ExecuteMsg::Deposit { vault_id: 1, amount: Coin::new(0, "usei") }
        ),
        Err(ContractError::InvalidAmount)
    );

    // A malformed share string is rejected.
    assert_eq!(
        engine.execute(
            &env_at(0),
            &info(USER1),
            ExecuteMsg::Withdraw { vault_id: 1, shares: "12x".to_string() }
        ),
        Err(ContractError::InvalidAmount)
    );
    assert_eq!(
        engine.execute(
            &env_at(0),
            &info(USER1),
            ExecuteMsg::Withdraw { vault_id: 1, shares: "".to_string() }
        ),
        Err(ContractError::InvalidAmount)
    );

    // Harvest and rebalance stay with the administrator.
    assert_eq!(
        engine.execute(&env_at(0), &info(USER1), ExecuteMsg::Harvest { vault_id: 1 }),
        Err(ContractError::Unauthorized)
    );
    assert_eq!(
        engine.execute(
            &env_at(0),
            &info(USER1),
            ExecuteMsg::Rebalance { vault_id: 1, plan: heavy.clone() }
        ),
        Err(ContractError::Unauthorized)
    );
    assert_eq!(
        engine.execute(
            &env_at(0),
            &info(ADMIN),
            ExecuteMsg::Rebalance { vault_id: 1, plan: heavy }
        ),
        Err(ContractError::AllocationExceeds100)
    );
}

#[test]
fn harvest_reports_zero_yield() {
    let mut engine = setup_contract();
    create_standard_vault(&mut engine);
    let resp = engine
        .execute(&env_at(0), &info(ADMIN), ExecuteMsg::Harvest { vault_id: 1 })
        .unwrap();
    assert!(resp.messages.is_empty());
    assert_eq!(resp.events[0].name, "seimoney.harvest_vault");
    assert_eq!(resp.events[0].attributes[1], ("yield_amount".to_string(), "0".to_string()));
}

#[test]
fn rebalance_replaces_legs() {
    let mut engine = setup_contract();
    create_standard_vault(&mut engine);
    let plan = AllocationPlan {
        legs: vec![
            AllocationLeg {
                protocol: ProtocolType::Staking,
                weight_bps: 7000,
                target_amount: "700".to_string(),
            },
            AllocationLeg {
                protocol: ProtocolType::Cash,
                weight_bps: 3000,
                target_amount: "300".to_string(),
            },
        ],
    };
    let resp = engine
        .execute(&env_at(0), &info(ADMIN), ExecuteMsg::Rebalance { vault_id: 1, plan })
        .unwrap();
    assert_eq!(engine.vaults[0].allocations.len(), 2);
    assert_eq!(engine.vaults[0].allocations[0].weight_bps, 7000);
    assert_eq!(resp.events[0].attributes[1].1, "2 legs");
}

#[test]
fn list_vaults_pages_are_deterministic() {
    let mut engine = setup_contract();
    for i in 0..4 {
        let msg = ExecuteMsg::CreateVault {
            label: format!("Vault {}", i),
            denom: "usei".to_string(),
            strategy: StrategyConfig::Conservative,
            fee_bps: Some(100),
        };
        engine.execute(&env_at(0), &info(ADMIN), msg).unwrap();
    }
    let page1 = engine.list_vaults(Some(1), Some(2));
    let page2 = engine.list_vaults(Some(1), Some(2));
    assert_eq!(page1, page2);
    assert_eq!(page1.len(), 2);
    assert_eq!(page1[0].id, 2);
    assert_eq!(page1[1].id, 3);

    // The same page again through the query interface.
    match engine
        .query(QueryMsg::ListVaults { start_after: Some(1), limit: Some(2) })
        .unwrap()
    {
        QueryAnswer::Vaults(vs) => assert_eq!(vs, page1),
        _ => panic!("unexpected answer"),
    }
}

#[test]
fn amounts_round_trip_as_text() {
    // What a vault reports as text reads back as the stored magnitude.
    let mut engine = setup_contract();
    create_standard_vault(&mut engine);
    engine
        .execute(
            &env_at(0),
            &info(USER1),
            ExecuteMsg::Deposit { vault_id: 1, amount: Coin::new(340282366920938463463, "usei") },
        )
        .unwrap();
    match engine.query(QueryMsg::GetVault { id: 1 }).unwrap() {
        QueryAnswer::Vault(v) => {
            assert_eq!(v.tvl, "340282366920938463463");
            assert_eq!(
                seimoney::strings::parse_u128(&v.tvl),
                Some(340282366920938463463u128)
            );
        },
        _ => panic!("unexpected answer"),
    }
    assert_eq!(seimoney::strings::parse_u128("0"), Some(0));
    assert_eq!(
        seimoney::strings::u128_to_dec(340282366920938463463374607431768211455u128),
        "340282366920938463463374607431768211455"
    );
    assert_eq!(
        seimoney::strings::parse_u128("340282366920938463463374607431768211456"),
        None
    );
}
