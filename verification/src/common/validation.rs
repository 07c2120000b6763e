//! Input validation shared by the components: denomination, non-zero
//! magnitude, fee bound, and address distinctness.

use vstd::prelude::*;

use crate::common::errors::ContractError;
use crate::host::Coin;
use crate::strings::str_eq;

verus! {

/// Accepts a coin exactly when its denomination is the expected one.
pub fn validate_denom(coin: &Coin, expected_denom: &str) -> (r: Result<(), ContractError>)
    ensures
        r is Ok <==> coin.denom@ == expected_denom@,
        r is Err ==> (r matches Err(ContractError::InvalidDenom { expected, actual })
            && expected@ == expected_denom@ && actual@ == coin.denom@),
{
    if !str_eq(coin.denom.as_str(), expected_denom) {
        return Err(ContractError::InvalidDenom {
            expected: expected_denom.to_owned(),
            actual: coin.denom.clone(),
        });
    }
    Ok(())
}

/// Accepts exactly the strictly positive magnitudes.
pub fn validate_non_zero_amount(amount: &u128) -> (r: Result<(), ContractError>)
    ensures
        r is Ok <==> *amount != 0,
        r is Err ==> (r matches Err(ContractError::InsufficientFunds { required, available })
            && required@ == "greater than 0"@ && available@ == "0"@),
{
    if *amount == 0 {
        return Err(ContractError::InsufficientFunds {
            required: String::from_str("greater than 0"),
            available: String::from_str("0"),
        });
    }
    Ok(())
}

/// Accepts a fee of at most 1000 basis points (10%).
pub fn validate_fee_bps(fee_bps: u16) -> (r: Result<(), ContractError>)
    ensures
        r is Ok <==> fee_bps <= 1000,
        r is Err ==> r == Err::<(), ContractError>(ContractError::InvalidFee {}),
{
    if fee_bps > 1000 {
        return Err(ContractError::InvalidFee {});
    }
    Ok(())
}

/// Accepts two addresses exactly when they differ.
pub fn validate_different_addresses(addr1: &str, addr2: &str) -> (r: Result<(), ContractError>)
    ensures
        r is Ok <==> addr1@ != addr2@,
        r is Err ==> (r matches Err(ContractError::Std(msg))
            && msg@ == "Sender and recipient cannot be the same"@),
{
    if str_eq(addr1, addr2) {
        return Err(ContractError::Std(String::from_str("Sender and recipient cannot be the same")));
    }
    Ok(())
}

} // verus!
