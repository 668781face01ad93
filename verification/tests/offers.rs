//! Offers accepted by the asset's owner, and rejected for anyone else.

use nft_marketplace::execute::{execute_create, execute_finish, instantiate, Marketplace};
use nft_marketplace::msg::{FinishSwapMsg, InstantiateMsg, SwapMsg};
use nft_marketplace::transfers::TransferIntent;
use nft_marketplace::types::{BlockInfo, Env, Expiration, MessageInfo, SwapType};

static DENOM: &str = "aarch";

fn mock_env() -> Env {
    Env {
        block: BlockInfo { height: 12345, time: 1571797419 },
        contract_address: "swap_contract".to_string(),
    }
}

fn info(sender: &str) -> MessageInfo {
    MessageInfo { sender: sender.to_string(), funds: vec![] }
}

fn market() -> Marketplace {
    instantiate(InstantiateMsg {
        admin: "swap_deployer".to_string(),
        denom: DENOM.to_string(),
        cw721: None,
        fee_percentage: 0,
    })
}

fn offer(id: &str, cw20: &str, price: u128) -> SwapMsg {
    SwapMsg {
        id: id.to_string(),
        cw721: "cw721_contract".to_string(),
        payment_token: Some(cw20.to_string()),
        token_id: "petrify".to_string(),
        expires: Expiration::AtHeight(384798573487439743),
        price,
        swap_type: SwapType::Offer,
    }
}

// The asset's owner accepts a cw20 offer: the asset flows to the offerer,
// the payment flows from the offerer's allowance to the owner
#[test]
fn test_cw20_offer_accepted() {
    let mut market = market();
    let env = mock_env();
    let cw721_owner = "original_owner";
    let cw20_owner = "cw20_owner";
    let price: u128 = 100000;

    execute_create(
        &mut market,
        &env,
        &info(cw20_owner),
        &cw721_owner.to_string(),
        offer("firstswap", "testcw_contract", price),
    )
    .unwrap();

    let intents = execute_finish(
        &mut market,
        &env,
        &info(cw721_owner),
        &cw721_owner.to_string(),
        FinishSwapMsg { id: "firstswap".to_string() },
    )
    .unwrap();

    assert_eq!(intents.len(), 2);
    // cw20_owner receives the NFT
    match &intents[0] {
        TransferIntent::TransferNft { recipient, .. } => assert_eq!(recipient, cw20_owner),
        _ => panic!("expected the asset transfer first"),
    }
    // cw721_owner receives the cw20 amount
    match &intents[1] {
        TransferIntent::Cw20TransferFrom { token, owner, recipient, amount } => {
            assert_eq!(token, "testcw_contract");
            assert_eq!(owner, cw20_owner);
            assert_eq!(recipient, cw721_owner);
            assert_eq!(*amount, price);
        }
        _ => panic!("expected the cw20 payment second"),
    }
}

// Nobody but the asset's owner can consume an offer
#[test]
fn test_cw20_offer_exploit() {
    let mut market = market();
    let env = mock_env();
    let cw721_owner = "original_owner";
    let cw20_owner = "cw20_owner";
    let bad_actor = "bad_actor";

    execute_create(
        &mut market,
        &env,
        &info(cw20_owner),
        &cw721_owner.to_string(),
        offer("firstswap", "testcw_contract", 100000),
    )
    .unwrap();

    let res = execute_finish(
        &mut market,
        &env,
        &info(bad_actor),
        &cw721_owner.to_string(),
        FinishSwapMsg { id: "firstswap".to_string() },
    );
    assert!(res.is_err());
}

// Instantiation works
#[test]
fn test_instantiate() {
    let market = instantiate(InstantiateMsg {
        admin: "cosmos2contract".to_string(),
        denom: "aarch".to_string(),
        cw721: Some(vec!["cosmos2contract".to_string()]),
        fee_percentage: 0,
    });
    assert_eq!(market.config.admin, "cosmos2contract");
    assert_eq!(market.config.denom, "aarch");
    assert_eq!(market.config.fees, 0);
    assert_eq!(market.swaps.count(), 0);
}
