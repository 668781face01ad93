//! Calls that must be rejected: payments that fall short, native offers,
//! and finishes by parties the swap does not belong to.

use nft_marketplace::error::ContractError;
use nft_marketplace::execute::{execute_create, execute_finish, instantiate, Marketplace};
use nft_marketplace::msg::{FinishSwapMsg, InstantiateMsg, SwapMsg};
use nft_marketplace::query::query_details;
use nft_marketplace::types::{BlockInfo, Coin, Env, Expiration, MessageInfo, SwapType};

static DENOM: &str = "aarch";

fn mock_env() -> Env {
    Env {
        block: BlockInfo { height: 12345, time: 1571797419 },
        contract_address: "swap_contract".to_string(),
    }
}

fn info(sender: &str) -> MessageInfo {
    MessageInfo { sender: sender.to_string(), funds: vec![] }
}

fn market() -> Marketplace {
    instantiate(InstantiateMsg {
        admin: "swap_deployer".to_string(),
        denom: DENOM.to_string(),
        cw721: None,
        fee_percentage: 0,
    })
}

// A buyer underpaying a native sale is rejected and the listing stays
#[test]
fn test_invalid_payment_native() {
    let mut market = market();
    let env = mock_env();
    let nft = "cw721_contract";
    let cw721_owner = "original_owner";
    let arch_owner = "arch_owner";

    execute_create(
        &mut market,
        &env,
        &info(cw721_owner),
        &cw721_owner.to_string(),
        SwapMsg {
            id: "firstswap".to_string(),
            cw721: nft.to_string(),
            payment_token: None,
            token_id: "petrify".to_string(),
            expires: Expiration::AtHeight(384798573487439743),
            price: 5000000000000000000, // 5 ARCH as aarch
            swap_type: SwapType::Sale,
        },
    )
    .unwrap();

    // Buyer attempts to purchase, underpaying with 1 ARCH
    let res = execute_finish(
        &mut market,
        &env,
        &MessageInfo {
            sender: arch_owner.to_string(),
            funds: vec![Coin { denom: DENOM.to_string(), amount: 1000000000000000000 }],
        },
        &cw721_owner.to_string(),
        FinishSwapMsg { id: "firstswap".to_string() },
    );
    assert_eq!(res, Err(ContractError::InsufficientFunds));

    // The record is untouched
    let details = query_details(&market.swaps, "firstswap".to_string()).unwrap();
    assert_eq!(details.creator, cw721_owner);
    assert_eq!(details.price, 5000000000000000000);
}

// A native-currency offer cannot enter the ledger at all
#[test]
fn test_invalid_payment_native_offer() {
    let mut market = market();
    let env = mock_env();
    let arch_owner = "arch_owner";

    let res = execute_create(
        &mut market,
        &env,
        &MessageInfo {
            sender: arch_owner.to_string(),
            funds: vec![Coin { denom: DENOM.to_string(), amount: 8000000000000000000 }],
        },
        &"original_owner".to_string(),
        SwapMsg {
            id: "firstswap".to_string(),
            cw721: "cw721_contract".to_string(),
            payment_token: None,
            token_id: "petrify".to_string(),
            expires: Expiration::AtHeight(384798573487439743),
            price: 9000000000000000000,
            swap_type: SwapType::Offer,
        },
    );
    assert!(res.is_err());
    assert_eq!(res, Err(ContractError::InvalidPaymentToken));

    // Nothing was stored
    assert!(query_details(&market.swaps, "firstswap".to_string()).is_err());
}

// A fungible-token offer can only be consumed by the asset's owner
#[test]
fn test_invalid_payment_cw20() {
    let mut market = market();
    let env = mock_env();
    let nft = "cw721_contract";
    let cw721_owner = "original_owner";
    let cw20_owner = "cw20_owner";
    let random = "owns_nothing";

    // The asset owner places an offer-side record priced in the cw20
    execute_create(
        &mut market,
        &env,
        &info(cw721_owner),
        &cw721_owner.to_string(),
        SwapMsg {
            id: "firstswap".to_string(),
            cw721: nft.to_string(),
            payment_token: Some("testcw_contract".to_string()),
            token_id: "petrify".to_string(),
            expires: Expiration::AtHeight(384798573487439743),
            price: 100000,
            swap_type: SwapType::Offer,
        },
    )
    .unwrap();

    // cw20_owner does not own the asset: their purchase fails
    let res = execute_finish(
        &mut market,
        &env,
        &info(cw20_owner),
        &cw721_owner.to_string(),
        FinishSwapMsg { id: "firstswap".to_string() },
    );
    assert_eq!(res, Err(ContractError::Unauthorized));

    // random owns nothing either: their purchase fails too
    let res = execute_finish(
        &mut market,
        &env,
        &info(random),
        &cw721_owner.to_string(),
        FinishSwapMsg { id: "firstswap".to_string() },
    );
    assert_eq!(res, Err(ContractError::Unauthorized));
}

// Accepting an offer composes a payment for the full price: an allowance
// short of it must fail at the fungible-token ledger that executes it
#[test]
fn test_invalid_payment_cw20_offer() {
    let mut market = market();
    let env = mock_env();
    let nft = "cw721_contract";
    let cw721_owner = "original_owner";
    let cw20_owner = "cw20_owner";
    let price: u128 = 100000;

    // Bidding buyer (cw20_owner) creates an offer; the allowance they
    // actually granted (10000) is the external ledger's business
    execute_create(
        &mut market,
        &env,
        &info(cw20_owner),
        &cw721_owner.to_string(),
        SwapMsg {
            id: "firstswap".to_string(),
            cw721: nft.to_string(),
            payment_token: Some("testcw_contract".to_string()),
            token_id: "petrify".to_string(),
            expires: Expiration::AtHeight(384798573487439743),
            price,
            swap_type: SwapType::Offer,
        },
    )
    .unwrap();

    // The asset owner accepts; the composed payment demands the full
    // price from the offerer's allowance, nothing less
    let intents = execute_finish(
        &mut market,
        &env,
        &info(cw721_owner),
        &cw721_owner.to_string(),
        FinishSwapMsg { id: "firstswap".to_string() },
    )
    .unwrap();

    let mut demanded: Option<u128> = None;
    for intent in intents.iter() {
        if let nft_marketplace::transfers::TransferIntent::Cw20TransferFrom {
            owner, amount, ..
        } = intent
        {
            assert_eq!(owner, cw20_owner);
            demanded = Some(*amount);
        }
    }
    assert_eq!(demanded, Some(price));
}
