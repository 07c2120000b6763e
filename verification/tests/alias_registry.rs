//! The username registry, driven as the host would drive it.

use seimoney::alias::{
    AliasEngine, ContractError, ExecuteMsg, InstantiateMsg, QueryAnswer, QueryMsg,
};
use seimoney::host::MessageInfo;

const ADMIN: &str = "sei1admin";
const USER1: &str = "sei1user1";
const USER2: &str = "sei1user2";

fn info(sender: &str) -> MessageInfo {
    MessageInfo { sender: sender.to_string(), funds: vec![] }
}

fn setup_contract() -> AliasEngine {
    let msg = InstantiateMsg {
        admin: Some(ADMIN.to_string()),
        min_username_length: Some(3),
        max_username_length: Some(20),
    };
    let (engine, _resp) = AliasEngine::instantiate(&info(ADMIN), msg);
    engine
}

#[test]
fn alias_engine_instantiates() {
    let engine = setup_contract();
    assert!(!engine.config.admin.is_empty());
}

#[test]
fn test_register_username() {
    let mut engine = setup_contract();

    let msg = ExecuteMsg::Register { username: "alice".to_string() };
    let result = engine.execute(&info(USER1), msg);
    assert!(result.is_ok());

    match engine.query(QueryMsg::Resolve { username: "alice".to_string() }).unwrap() {
        QueryAnswer::Username(result) => {
            assert_eq!(result.username, "alice");
            assert_eq!(result.address, USER1);
        },
        _ => panic!("unexpected answer"),
    }
}

#[test]
fn test_get_username_by_address() {
    let mut engine = setup_contract();

    engine
        .execute(&info(USER1), ExecuteMsg::Register { username: "alice".to_string() })
        .unwrap();

    match engine
        .query(QueryMsg::ReverseLookup { address: USER1.to_string() })
        .unwrap()
    {
        QueryAnswer::Address(result) => assert_eq!(result.username, "alice"),
        _ => panic!("unexpected answer"),
    }
}

#[test]
fn registry_stays_bijective() {
    let mut engine = setup_contract();
    engine
        .execute(&info(USER1), ExecuteMsg::Register { username: "alice".to_string() })
        .unwrap();

    // A taken name and a second name for one account are rejected.
    assert_eq!(
        engine.execute(&info(USER2), ExecuteMsg::Register { username: "alice".to_string() }),
        Err(ContractError::UsernameTaken)
    );
    assert_eq!(
        engine.execute(&info(USER1), ExecuteMsg::Register { username: "bob_1".to_string() }),
        Err(ContractError::AddressHasUsername)
    );

    // An update re-keys the row and frees the old name.
    engine
        .execute(&info(USER1), ExecuteMsg::Update { username: "alice_2".to_string() })
        .unwrap();
    assert!(matches!(
        engine.query(QueryMsg::Resolve { username: "alice".to_string() }),
        Err(ContractError::UsernameNotFound)
    ));
    engine
        .execute(&info(USER2), ExecuteMsg::Register { username: "alice".to_string() })
        .unwrap();

    // Unregistering frees both directions.
    engine.execute(&info(USER1), ExecuteMsg::Unregister {}).unwrap();
    assert!(matches!(
        engine.query(QueryMsg::ReverseLookup { address: USER1.to_string() }),
        Err(ContractError::NoUsernameRegistered)
    ));
}

#[test]
fn username_format_rules() {
    let mut engine = setup_contract();

    assert_eq!(
        engine.execute(&info(USER1), ExecuteMsg::Register { username: "ab".to_string() }),
        Err(ContractError::UsernameTooShort)
    );
    assert_eq!(
        engine.execute(
            &info(USER1),
            ExecuteMsg::Register { username: "a_very_long_username_here".to_string() }
        ),
        Err(ContractError::UsernameTooLong)
    );
    assert_eq!(
        engine.execute(&info(USER1), ExecuteMsg::Register { username: "has space".to_string() }),
        Err(ContractError::UsernameInvalidChars)
    );
    assert!(
        engine
            .execute(&info(USER1), ExecuteMsg::Register { username: "under_score9".to_string() })
            .is_ok()
    );

    // Updating without a registration fails.
    assert_eq!(
        engine.execute(&info(USER2), ExecuteMsg::Update { username: "fresh".to_string() }),
        Err(ContractError::NoUsernameRegistered)
    );
    assert_eq!(
        engine.execute(&info(USER2), ExecuteMsg::Unregister {}),
        Err(ContractError::NoUsernameRegistered)
    );
}

#[test]
fn list_usernames_caps_at_limit() {
    let mut engine = setup_contract();
    for (user, name) in [(USER1, "alice"), (USER2, "bobby"), (ADMIN, "carol")] {
        engine
            .execute(&info(user), ExecuteMsg::Register { username: name.to_string() })
            .unwrap();
    }
    match engine
        .query(QueryMsg::ListUsernames { start_after: None, limit: Some(2) })
        .unwrap()
    {
        QueryAnswer::Usernames(names) => {
            assert_eq!(names, vec!["alice".to_string(), "bobby".to_string()]);
        },
        _ => panic!("unexpected answer"),
    }
}
