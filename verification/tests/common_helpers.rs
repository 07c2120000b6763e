//! The shared math, validation and time helpers.

use seimoney::common::math::{
    calculate_assets_from_shares, calculate_fee, calculate_shares, validate_allocation_weights,
};
use seimoney::common::validation::{
    validate_denom, validate_different_addresses, validate_fee_bps, validate_non_zero_amount,
};
use seimoney::common::time::is_expired;
use seimoney::common::events::{contribute_pool_event, create_transfer_event};
use seimoney::host::{Coin, Env, Timestamp};

#[test]
fn test_calculate_fee() {
    let amount: u128 = 1000;
    let fee = calculate_fee(amount, 100); // 1%
    assert_eq!(fee, 10);
}

#[test]
fn test_calculate_shares() {
    let deposit: u128 = 100;
    let total_shares: u128 = 1000;
    let total_assets: u128 = 2000;

    let shares = calculate_shares(deposit, total_shares, total_assets);
    assert_eq!(shares, 50);
}

#[test]
fn test_calculate_shares_bootstrap() {
    assert_eq!(calculate_shares(250, 0, 0), 250);
    assert_eq!(calculate_shares(250, 0, 999), 250);
    assert_eq!(calculate_shares(250, 999, 0), 250);
}

#[test]
fn test_calculate_assets_from_shares() {
    assert_eq!(calculate_assets_from_shares(500, 1000, 2000), 1000);
    assert_eq!(calculate_assets_from_shares(500, 0, 2000), 0);
    // Truncation favours the pool.
    assert_eq!(calculate_assets_from_shares(1, 3, 100), 33);
}

#[test]
fn test_validate_allocation_weights() {
    assert!(validate_allocation_weights(&[5000, 3000, 2000]));
    assert!(!validate_allocation_weights(&[5000, 3000, 1000]));
}

#[test]
fn test_is_expired() {
    let env = Env { block_time: Timestamp::from_nanos(1_571_797_419_879_305_533) };
    let future = env.block_time.plus_seconds(3600);
    let past = env.block_time.minus_seconds(3600);

    assert!(!is_expired(Some(future), &env));
    assert!(is_expired(Some(past), &env));
    assert!(!is_expired(None, &env));
}

#[test]
fn test_validate_denom() {
    let coin = Coin::new(100, "usei");
    assert!(validate_denom(&coin, "usei").is_ok());
    assert!(validate_denom(&coin, "uatom").is_err());
}

#[test]
fn test_validate_non_zero_amount() {
    assert!(validate_non_zero_amount(&100).is_ok());
    assert!(validate_non_zero_amount(&0).is_err());
}

#[test]
fn test_validate_fee_bps() {
    assert!(validate_fee_bps(100).is_ok());
    assert!(validate_fee_bps(1000).is_ok());
    assert!(validate_fee_bps(1001).is_err());
}

#[test]
fn test_validate_different_addresses() {
    assert!(validate_different_addresses("sei1a", "sei1b").is_ok());
    assert!(validate_different_addresses("sei1a", "sei1a").is_err());
}

#[test]
fn shared_event_builders_pin_attributes() {
    let coin = Coin::new(250, "usei");
    assert_eq!(coin.to_text(), "250usei");

    let evt = create_transfer_event(7, "sei1a", "sei1b", &coin, &Some("note".to_string()));
    assert_eq!(evt.name, "create_transfer");
    assert_eq!(
        evt.attributes,
        vec![
            ("id".to_string(), "7".to_string()),
            ("sender".to_string(), "sei1a".to_string()),
            ("recipient".to_string(), "sei1b".to_string()),
            ("amount".to_string(), "250usei".to_string()),
            ("remark".to_string(), "note".to_string()),
        ]
    );

    let evt = contribute_pool_event(3, "sei1c", &40, &90);
    assert_eq!(evt.name, "contribute_pool");
    assert_eq!(evt.attributes[2], ("amount".to_string(), "40".to_string()));
    assert_eq!(evt.attributes[3], ("total".to_string(), "90".to_string()));
}
