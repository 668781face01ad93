//! The fee-split arithmetic, checked on concrete values.

use nft_marketplace::error::ContractError;
use nft_marketplace::fees::{fee_percentage, fee_split, FeeSplit};
use nft_marketplace::state::Config;

fn config_with_fees(fees: u64) -> Config {
    Config {
        admin: "swap_deployer".to_string(),
        denom: "aarch".to_string(),
        fees,
        allowed_cw721: None,
    }
}

#[test]
fn fee_percentage_overflow() {
    // Test small number
    let amount: u128 = 123456;
    let expected: u128 = 43209;
    assert_eq!(fee_percentage(amount, 35), expected);

    // Test largest number
    let amount: u128 = 100000000000000000000000000000000000000;
    let expected: u128 = 50000000000000000000000000000000000000;
    assert_eq!(fee_percentage(amount, 50), expected);

    // Testing for overflow
    fee_percentage(u128::MAX, 1);
    fee_percentage(u128::MAX, 0);
    fee_percentage(u128::MAX, 100);

    // Testing for underflow
    assert_eq!(fee_percentage(1, 0), 0);
    assert_eq!(fee_percentage(1, 1), 0);
    assert_eq!(fee_percentage(1, 10), 0);
    assert_eq!(fee_percentage(1, 100), 1);

    assert_eq!(fee_percentage(0, 0), 0);
    assert_eq!(fee_percentage(0, 1), 0);
    assert_eq!(fee_percentage(0, 10), 0);
    assert_eq!(fee_percentage(0, 100), 0);
}

#[test]
fn lib_fee_percentage_overflow() {
    // Test small number
    let amount: u128 = 123456;
    let expected: u128 = 43209;
    assert_eq!(fee_percentage(amount, 35), expected);

    // Test largest number
    let amount: u128 = 100000000000000000000000000000000000000;
    let expected: u128 = 50000000000000000000000000000000000000;
    assert_eq!(fee_percentage(amount, 50), expected);

    fee_percentage(u128::MAX, 1);
    fee_percentage(u128::MAX, 0);
    fee_percentage(u128::MAX, 100);
}

#[test]
fn fee_split_small_price() {
    // marketplace = floor(123456 * 35 / 100), seller takes the rest
    let split = fee_split(&config_with_fees(35), 123456).unwrap();
    assert_eq!(split, FeeSplit { marketplace: 43209, seller: 80247 });
    assert_eq!(split.marketplace + split.seller, 123456);
}

#[test]
fn fee_split_shares_always_rejoin() {
    for fees in [0u64, 1, 10, 30, 50, 100] {
        for price in [1u128, 99, 100, 123456, u128::MAX] {
            match fee_split(&config_with_fees(fees), price) {
                Ok(split) => {
                    assert!(split.marketplace <= price);
                    assert_eq!(split.marketplace + split.seller, price);
                }
                Err(e) => assert_eq!(e, ContractError::InvalidInput),
            }
        }
    }
}

#[test]
fn error_text_names_the_cause() {
    assert_eq!(ContractError::Unauthorized.text(), "unauthorized");
    assert_eq!(ContractError::AlreadyExists.text(), "swap already exists");
    assert_eq!(
        ContractError::ExactFundsMismatch.text(),
        "must send exactly the required funds"
    );
}

#[test]
fn fee_split_rejects_zero_price() {
    // a split of nothing would hand the marketplace the whole (empty) price
    assert_eq!(
        fee_split(&config_with_fees(10), 0),
        Err(ContractError::InvalidInput)
    );
}

#[test]
fn fee_split_whole_price_fee() {
    // at 100 percent the marketplace share reaches the price: rejected
    assert_eq!(
        fee_split(&config_with_fees(100), 50),
        Err(ContractError::InvalidInput)
    );
}
