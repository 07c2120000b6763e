//! The timed-transfer engine, driven as the host would drive it.

use seimoney::host::{Coin, Env, MessageInfo, Timestamp};
use seimoney::payments::{
    ContractError, ExecuteMsg, InstantiateMsg, PaymentsEngine, QueryAnswer, QueryMsg,
};

const ADMIN: &str = "admin";
const USER1: &str = "user1";
const USER2: &str = "user2";
const DENOM: &str = "usei";

fn env_at(seconds: u64) -> Env {
    Env { block_time: Timestamp::from_nanos(seconds * 1_000_000_000) }
}

fn info(sender: &str) -> MessageInfo {
    MessageInfo { sender: sender.to_string(), funds: vec![] }
}

fn info_with(sender: &str, coins: Vec<Coin>) -> MessageInfo {
    MessageInfo { sender: sender.to_string(), funds: coins }
}

fn setup_contract() -> PaymentsEngine {
    let msg = InstantiateMsg { admin: Some(ADMIN.to_string()), default_denom: DENOM.to_string() };
    let (engine, _resp) = PaymentsEngine::instantiate(&info(ADMIN), msg);
    engine
}

fn transfer_status(engine: &PaymentsEngine, id: u64) -> String {
    match engine.query(QueryMsg::GetTransfer { id }).unwrap() {
        QueryAnswer::Transfer(t) => t.status,
        _ => panic!("unexpected answer"),
    }
}

#[test]
fn test_instantiate() {
    let engine = setup_contract();
    match engine.query(QueryMsg::Config {}).unwrap() {
        QueryAnswer::Config(res) => {
            assert_eq!(res.admin, ADMIN);
            assert_eq!(res.default_denom, DENOM);
        },
        _ => panic!("unexpected answer"),
    }
}

#[test]
fn test_create_transfer() {
    let mut engine = setup_contract();

    let msg = ExecuteMsg::CreateTransfer {
        recipient: USER2.to_string(),
        amount: Coin::new(100, DENOM),
        remark: Some("Test transfer".to_string()),
        expiry_ts: None,
    };
    let res = engine.execute(&env_at(0), &info_with(USER1, vec![Coin::new(100, DENOM)]), msg);
    assert!(res.is_ok());

    match engine.query(QueryMsg::GetTransfer { id: 1 }).unwrap() {
        QueryAnswer::Transfer(res) => {
            assert_eq!(res.id, 1);
            assert_eq!(res.sender, USER1);
            assert_eq!(res.recipient, USER2);
            assert_eq!(res.amount, Coin::new(100, DENOM));
            assert_eq!(res.remark, Some("Test transfer".to_string()));
            assert_eq!(res.status, "Open");
        },
        _ => panic!("unexpected answer"),
    }
}

#[test]
fn test_claim_transfer() {
    let mut engine = setup_contract();

    let msg = ExecuteMsg::CreateTransfer {
        recipient: USER2.to_string(),
        amount: Coin::new(100, DENOM),
        remark: None,
        expiry_ts: None,
    };
    engine
        .execute(&env_at(0), &info_with(USER1, vec![Coin::new(100, DENOM)]), msg)
        .unwrap();

    let res = engine.execute(&env_at(0), &info(USER2), ExecuteMsg::ClaimTransfer { id: 1 });
    assert!(res.is_ok());

    // The escrowed amount goes to USER2.
    let resp = res.unwrap();
    assert_eq!(resp.messages[0].to_address, USER2);
    assert_eq!(resp.messages[0].amount, vec![Coin::new(100, DENOM)]);

    assert_eq!(transfer_status(&engine, 1), "Claimed");
}

#[test]
fn test_refund_transfer() {
    let mut engine = setup_contract();

    // Created at time 1000 with a deadline at 2000.
    let expiry = 2000u64;
    let msg = ExecuteMsg::CreateTransfer {
        recipient: USER2.to_string(),
        amount: Coin::new(100, DENOM),
        remark: None,
        expiry_ts: Some(expiry),
    };
    engine
        .execute(&env_at(1000), &info_with(USER1, vec![Coin::new(100, DENOM)]), msg)
        .unwrap();

    // Refund once the deadline has arrived.
    let res = engine.execute(&env_at(2000), &info(USER1), ExecuteMsg::RefundTransfer { id: 1 });
    assert!(res.is_ok());

    // The escrowed amount goes back to USER1.
    let resp = res.unwrap();
    assert_eq!(resp.messages[0].to_address, USER1);
    assert_eq!(resp.messages[0].amount, vec![Coin::new(100, DENOM)]);

    assert_eq!(transfer_status(&engine, 1), "Refunded");
}

#[test]
fn test_unauthorized_claim() {
    let mut engine = setup_contract();

    let msg = ExecuteMsg::CreateTransfer {
        recipient: USER2.to_string(),
        amount: Coin::new(100, DENOM),
        remark: None,
        expiry_ts: None,
    };
    engine
        .execute(&env_at(0), &info_with(USER1, vec![Coin::new(100, DENOM)]), msg)
        .unwrap();

    // The sender, not the recipient, tries to claim.
    let res = engine.execute(&env_at(0), &info(USER1), ExecuteMsg::ClaimTransfer { id: 1 });
    assert!(res.is_err());
}

#[test]
fn test_insufficient_funds() {
    let mut engine = setup_contract();

    // Attaching less than the named amount is rejected.
    let msg = ExecuteMsg::CreateTransfer {
        recipient: USER2.to_string(),
        amount: Coin::new(100, DENOM),
        remark: None,
        expiry_ts: None,
    };
    let res = engine.execute(&env_at(0), &info_with(USER1, vec![Coin::new(50, DENOM)]), msg);
    assert!(res.is_err());
}

#[test]
fn transfer_error_inputs() {
    let mut engine = setup_contract();

    // No funds attached at all.
    let msg = ExecuteMsg::CreateTransfer {
        recipient: USER2.to_string(),
        amount: Coin::new(100, DENOM),
        remark: None,
        expiry_ts: None,
    };
    assert_eq!(
        engine.execute(&env_at(0), &info(USER1), msg.clone()),
        Err(ContractError::InvalidFunds)
    );

    // A deadline already passed.
    let stale = ExecuteMsg::CreateTransfer {
        recipient: USER2.to_string(),
        amount: Coin::new(100, DENOM),
        remark: None,
        expiry_ts: Some(5),
    };
    assert_eq!(
        engine.execute(&env_at(10), &info_with(USER1, vec![Coin::new(100, DENOM)]), stale),
        Err(ContractError::Expired)
    );

    // Unknown transfer.
    assert_eq!(
        engine.execute(&env_at(0), &info(USER2), ExecuteMsg::ClaimTransfer { id: 9 }),
        Err(ContractError::NotFound)
    );

    engine
        .execute(
            &env_at(1000),
            &info_with(USER1, vec![Coin::new(100, DENOM)]),
            ExecuteMsg::CreateTransfer {
                recipient: USER2.to_string(),
                amount: Coin::new(100, DENOM),
                remark: None,
                expiry_ts: Some(2000),
            },
        )
        .unwrap();

    // Claiming after the deadline fails; refunding before it fails;
    // the wrong account cannot claim or refund.
    assert_eq!(
        engine.execute(&env_at(2000), &info(USER2), ExecuteMsg::ClaimTransfer { id: 1 }),
        Err(ContractError::Expired)
    );
    assert_eq!(
        engine.execute(&env_at(1500), &info(USER1), ExecuteMsg::RefundTransfer { id: 1 }),
        Err(ContractError::NotExpired)
    );
    assert_eq!(
        engine.execute(&env_at(1500), &info(USER1), ExecuteMsg::ClaimTransfer { id: 1 }),
        Err(ContractError::NotRecipient)
    );
    assert_eq!(
        engine.execute(&env_at(2000), &info(USER2), ExecuteMsg::RefundTransfer { id: 1 }),
        Err(ContractError::NotSender)
    );

    // A settled transfer cannot be settled again.
    engine
        .execute(&env_at(1500), &info(USER2), ExecuteMsg::ClaimTransfer { id: 1 })
        .unwrap();
    assert_eq!(
        engine.execute(&env_at(1500), &info(USER2), ExecuteMsg::ClaimTransfer { id: 1 }),
        Err(ContractError::AlreadyFinalized)
    );
    assert_eq!(
        engine.execute(&env_at(2000), &info(USER1), ExecuteMsg::RefundTransfer { id: 1 }),
        Err(ContractError::AlreadyFinalized)
    );
}

#[test]
fn role_listings_filter_and_cap() {
    let mut engine = setup_contract();
    for i in 0..3 {
        let (from, to) = if i == 1 { (USER2, USER1) } else { (USER1, USER2) };
        engine
            .execute(
                &env_at(0),
                &info_with(from, vec![Coin::new(10 + i, DENOM)]),
                ExecuteMsg::CreateTransfer {
                    recipient: to.to_string(),
                    amount: Coin::new(10 + i, DENOM),
                    remark: None,
                    expiry_ts: None,
                },
            )
            .unwrap();
    }

    let sent = engine.list_by_sender(USER1, None, None);
    assert_eq!(sent.len(), 2);
    assert_eq!(sent[0].id, 1);
    assert_eq!(sent[1].id, 3);

    let received = engine.list_by_recipient(USER1, None, None);
    assert_eq!(received.len(), 1);
    assert_eq!(received[0].id, 2);

    // The cursor excludes ids at or below it; the limit caps the page.
    let after = engine.list_by_sender(USER1, Some(1), None);
    assert_eq!(after.len(), 1);
    assert_eq!(after[0].id, 3);
    let capped = engine.list_by_sender(USER1, None, Some(1));
    assert_eq!(capped.len(), 1);
    assert_eq!(capped[0].id, 1);
}
