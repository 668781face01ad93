//! The lifecycle's guarantees on concrete runs: double creation, foreign
//! callers, expiration, asset-wide cleanup on finish, the administrator's
//! operations, and the payment validators.

use nft_marketplace::error::ContractError;
use nft_marketplace::execute::{
    execute_cancel, execute_create, execute_finish, execute_update, execute_update_config,
    execute_withdraw_fees, instantiate, Marketplace,
};
use nft_marketplace::msg::{
    CancelMsg, FinishSwapMsg, InstantiateMsg, SwapMsg, UpdateMsg, WithdrawMsg,
};
use nft_marketplace::payment::{
    check_contract_balance_ok, check_sent_required_payment, check_sent_required_payment_exact,
};
use nft_marketplace::query::{query_config, query_swap_total, query_swaps_of_token};
use nft_marketplace::state::{Config, SwapLedger};
use nft_marketplace::transfers::TransferIntent;
use nft_marketplace::types::{BlockInfo, Coin, CW721Swap, Env, Expiration, MessageInfo, SwapType};

static DENOM: &str = "aarch";

fn mock_env() -> Env {
    Env {
        block: BlockInfo { height: 12345, time: 1571797419 },
        contract_address: "swap_contract".to_string(),
    }
}

fn info(sender: &str) -> MessageInfo {
    MessageInfo { sender: sender.to_string(), funds: vec![] }
}

fn market_with_fees(fee_percentage: u64) -> Marketplace {
    instantiate(InstantiateMsg {
        admin: "swap_deployer".to_string(),
        denom: DENOM.to_string(),
        cw721: None,
        fee_percentage,
    })
}

fn sale(id: &str, token_id: &str, price: u128) -> SwapMsg {
    SwapMsg {
        id: id.to_string(),
        cw721: "cw721_contract".to_string(),
        payment_token: None,
        token_id: token_id.to_string(),
        expires: Expiration::AtHeight(384798573487439743),
        price,
        swap_type: SwapType::Sale,
    }
}

// Creating the same id twice yields success, then AlreadyExists
#[test]
fn create_same_id_twice() {
    let mut market = market_with_fees(0);
    let env = mock_env();
    let owner = "original_owner".to_string();
    assert!(execute_create(&mut market, &env, &info(&owner), &owner, sale("swap1", "petrify", 100))
        .is_ok());
    let res =
        execute_create(&mut market, &env, &info(&owner), &owner, sale("swap1", "petrify", 100));
    assert_eq!(res, Err(ContractError::AlreadyExists));
}

// Only the creator can update or cancel; any other caller gets Unauthorized
#[test]
fn only_creator_may_update_or_cancel() {
    let mut market = market_with_fees(0);
    let env = mock_env();
    let owner = "original_owner".to_string();
    execute_create(&mut market, &env, &info(&owner), &owner, sale("swap1", "petrify", 100))
        .unwrap();

    let res = execute_update(
        &mut market,
        &env,
        &info("somebody_else"),
        UpdateMsg {
            id: "swap1".to_string(),
            expires: Expiration::AtHeight(384798573487439743),
            price: 5,
        },
    );
    assert_eq!(res, Err(ContractError::Unauthorized));

    let res = execute_cancel(
        &mut market,
        &env,
        &info("somebody_else"),
        CancelMsg { id: "swap1".to_string() },
    );
    assert_eq!(res, Err(ContractError::Unauthorized));
}

// Creating a sale without owning the asset is Unauthorized
#[test]
fn sale_by_non_owner_rejected() {
    let mut market = market_with_fees(0);
    let env = mock_env();
    let res = execute_create(
        &mut market,
        &env,
        &info("somebody_else"),
        &"original_owner".to_string(),
        sale("swap1", "petrify", 100),
    );
    assert_eq!(res, Err(ContractError::Unauthorized));
}

// Create and Finish on an expired record always fail Expired
#[test]
fn expired_creation_and_finish_rejected() {
    let mut market = market_with_fees(0);
    let env = mock_env();
    let owner = "original_owner".to_string();

    // the block height is already past the bound
    let mut msg = sale("swap1", "petrify", 100);
    msg.expires = Expiration::AtHeight(12345);
    let res = execute_create(&mut market, &env, &info(&owner), &owner, msg);
    assert_eq!(res, Err(ContractError::Expired));

    // a timestamp bound in the past is just as dead
    let mut msg = sale("swap2", "petrify", 100);
    msg.expires = Expiration::AtTime(1571797419);
    let res = execute_create(&mut market, &env, &info(&owner), &owner, msg);
    assert_eq!(res, Err(ContractError::Expired));

    // a live record whose bound then passes cannot be finished
    execute_create(&mut market, &env, &info(&owner), &owner, sale("swap3", "petrify", 100))
        .unwrap();
    execute_update(
        &mut market,
        &env,
        &info(&owner),
        UpdateMsg {
            id: "swap3".to_string(),
            expires: Expiration::AtHeight(12345),
            price: 100,
        },
    )
    .unwrap();
    let res = execute_finish(
        &mut market,
        &env,
        &MessageInfo {
            sender: "buyer".to_string(),
            funds: vec![Coin { denom: DENOM.to_string(), amount: 100 }],
        },
        &owner,
        FinishSwapMsg { id: "swap3".to_string() },
    );
    assert_eq!(res, Err(ContractError::Expired));
}

// Finishing a swap removes every other record on the same asset, both sides
#[test]
fn finish_clears_every_record_of_the_asset() {
    let mut market = market_with_fees(0);
    let env = mock_env();
    let owner = "original_owner".to_string();
    let bidder = "cw20_owner";

    // one sale and one offer on the same asset, one sale on another
    execute_create(&mut market, &env, &info(&owner), &owner, sale("sale1", "petrify", 100))
        .unwrap();
    execute_create(
        &mut market,
        &env,
        &info(bidder),
        &owner,
        SwapMsg {
            id: "offer1".to_string(),
            cw721: "cw721_contract".to_string(),
            payment_token: Some("testcw_contract".to_string()),
            token_id: "petrify".to_string(),
            expires: Expiration::AtHeight(384798573487439743),
            price: 50,
            swap_type: SwapType::Offer,
        },
    )
    .unwrap();
    execute_create(&mut market, &env, &info(&owner), &owner, sale("sale2", "other_token", 100))
        .unwrap();
    assert_eq!(query_swap_total(&market.swaps, None), 3);

    // finishing the sale consumes the offer too
    execute_finish(
        &mut market,
        &env,
        &MessageInfo {
            sender: "buyer".to_string(),
            funds: vec![Coin { denom: DENOM.to_string(), amount: 100 }],
        },
        &owner,
        FinishSwapMsg { id: "sale1".to_string() },
    )
    .unwrap();

    for side in [Some(SwapType::Sale), Some(SwapType::Offer), None] {
        let left = query_swaps_of_token(
            &market.swaps,
            "petrify".to_string(),
            "cw721_contract".to_string(),
            side,
            None,
            None,
        );
        assert_eq!(left.total, 0);
    }
    // the unrelated record stays
    assert_eq!(query_swap_total(&market.swaps, None), 1);
}

// Finishing an id that does not exist is NotFound
#[test]
fn finish_unknown_id_not_found() {
    let mut market = market_with_fees(0);
    let env = mock_env();
    let res = execute_finish(
        &mut market,
        &env,
        &info("buyer"),
        &"anyone".to_string(),
        FinishSwapMsg { id: "missing".to_string() },
    );
    assert_eq!(res, Err(ContractError::NotFound));
}

// A record can only enter the ledger for an allow-listed collection
#[test]
fn allow_list_gates_creation() {
    let mut market = instantiate(InstantiateMsg {
        admin: "swap_deployer".to_string(),
        denom: DENOM.to_string(),
        cw721: Some(vec!["approved_contract".to_string()]),
        fee_percentage: 0,
    });
    let env = mock_env();
    let owner = "original_owner".to_string();

    let mut msg = sale("swap1", "petrify", 100);
    msg.cw721 = "unapproved_contract".to_string();
    let res = execute_create(&mut market, &env, &info(&owner), &owner, msg);
    assert_eq!(res, Err(ContractError::Unauthorized));

    let mut msg = sale("swap1", "petrify", 100);
    msg.cw721 = "approved_contract".to_string();
    assert!(execute_create(&mut market, &env, &info(&owner), &owner, msg).is_ok());
}

// A fungible sale with a fee splits the price between seller and
// marketplace; the marketplace's share arrives at its own account
#[test]
fn finish_with_fee_splits_payment() {
    let mut market = market_with_fees(30);
    let env = mock_env();
    let owner = "original_owner".to_string();
    let buyer = "cw20_owner";

    let mut msg = sale("swap1", "petrify", 100000);
    msg.payment_token = Some("testcw_contract".to_string());
    execute_create(&mut market, &env, &info(&owner), &owner, msg).unwrap();

    let intents = execute_finish(
        &mut market,
        &env,
        &info(buyer),
        &owner,
        FinishSwapMsg { id: "swap1".to_string() },
    )
    .unwrap();

    assert_eq!(intents.len(), 3);
    match &intents[1] {
        TransferIntent::Cw20TransferFrom { owner: payer, recipient, amount, .. } => {
            assert_eq!(payer, buyer);
            assert_eq!(recipient, &owner);
            assert_eq!(*amount, 70000); // seller share: 100000 - 30%
        }
        _ => panic!("expected the seller's payment second"),
    }
    match &intents[2] {
        TransferIntent::Cw20TransferFrom { owner: payer, recipient, amount, .. } => {
            assert_eq!(payer, buyer);
            assert_eq!(recipient, "swap_contract"); // the marketplace itself
            assert_eq!(*amount, 30000); // marketplace share: 30%
        }
        _ => panic!("expected the fee transfer last"),
    }
}

// A native sale with a fee sends the seller their share only; the
// marketplace's share simply stays in its account, no third intent
#[test]
fn native_finish_with_fee_keeps_share() {
    let mut market = market_with_fees(10);
    let env = mock_env();
    let owner = "original_owner".to_string();

    execute_create(&mut market, &env, &info(&owner), &owner, sale("swap1", "petrify", 100))
        .unwrap();
    let intents = execute_finish(
        &mut market,
        &env,
        &MessageInfo {
            sender: "buyer".to_string(),
            funds: vec![Coin { denom: DENOM.to_string(), amount: 100 }],
        },
        &owner,
        FinishSwapMsg { id: "swap1".to_string() },
    )
    .unwrap();

    assert_eq!(intents.len(), 2);
    match &intents[1] {
        TransferIntent::NativeSend { to, fund } => {
            assert_eq!(to, &owner);
            assert_eq!(fund.amount, 90);
        }
        _ => panic!("expected the native payment second"),
    }
}

// Only the administrator may rewrite the configuration; the fee fail-safe
// applies to every write
#[test]
fn update_config_admin_only_and_clamped() {
    let mut market = market_with_fees(0);
    let env = mock_env();
    let new_config = Config {
        admin: "swap_deployer".to_string(),
        denom: DENOM.to_string(),
        fees: 50,
        allowed_cw721: None,
    };

    let res = execute_update_config(
        &mut market,
        &env,
        &info("somebody_else"),
        new_config.clone(),
    );
    assert_eq!(res, Err(ContractError::Unauthorized));

    execute_update_config(&mut market, &env, &info("swap_deployer"), new_config).unwrap();
    assert_eq!(query_config(&market.config).fees, 0); // 50 clamps to 0

    let modest = Config {
        admin: "swap_deployer".to_string(),
        denom: DENOM.to_string(),
        fees: 20,
        allowed_cw721: None,
    };
    execute_update_config(&mut market, &env, &info("swap_deployer"), modest).unwrap();
    assert_eq!(query_config(&market.config).fees, 20);
}

// Fees above 30 percent clamp to 0 at instantiation
#[test]
fn instantiate_clamps_excessive_fee() {
    let market = market_with_fees(31);
    assert_eq!(market.config.fees, 0);
    let market = market_with_fees(30);
    assert_eq!(market.config.fees, 30);
}

// Only the administrator may withdraw collected fees
#[test]
fn withdraw_fees_composes_the_payout() {
    let market = market_with_fees(0);
    let env = mock_env();

    let msg = WithdrawMsg {
        amount: 500,
        denom: DENOM.to_string(),
        payment_token: None,
    };
    let res = execute_withdraw_fees(&market, &env, &info("somebody_else"), msg.clone());
    assert_eq!(res, Err(ContractError::Unauthorized));

    let intent = execute_withdraw_fees(&market, &env, &info("swap_deployer"), msg).unwrap();
    match intent {
        TransferIntent::NativeSend { to, fund } => {
            assert_eq!(to, "swap_deployer");
            assert_eq!(fund.denom, DENOM);
            assert_eq!(fund.amount, 500);
        }
        _ => panic!("expected a native send"),
    }

    let intent = execute_withdraw_fees(
        &market,
        &env,
        &info("swap_deployer"),
        WithdrawMsg {
            amount: 700,
            denom: DENOM.to_string(),
            payment_token: Some("testcw_contract".to_string()),
        },
    )
    .unwrap();
    match intent {
        TransferIntent::Cw20Transfer { token, recipient, amount } => {
            assert_eq!(token, "testcw_contract");
            assert_eq!(recipient, "swap_deployer");
            assert_eq!(amount, 700);
        }
        _ => panic!("expected a cw20 transfer"),
    }
}

// The at-least and exact payment validators, and the balance check
#[test]
fn payment_validators() {
    let coin = |amount: u128| Coin { denom: DENOM.to_string(), amount };
    let required = Some(coin(100));

    assert!(check_sent_required_payment(&vec![coin(100)], required.clone()).is_ok());
    assert!(check_sent_required_payment(&vec![coin(150)], required.clone()).is_ok());
    assert_eq!(
        check_sent_required_payment(&vec![coin(99)], required.clone()),
        Err(ContractError::InsufficientFunds)
    );
    assert!(check_sent_required_payment(&vec![], Some(coin(0))).is_ok());
    assert!(check_sent_required_payment(&vec![], None).is_ok());

    assert!(check_sent_required_payment_exact(&vec![coin(100)], required.clone()).is_ok());
    assert_eq!(
        check_sent_required_payment_exact(&vec![coin(150)], required.clone()),
        Err(ContractError::ExactFundsMismatch)
    );
    assert_eq!(
        check_sent_required_payment_exact(&vec![coin(99)], required),
        Err(ContractError::ExactFundsMismatch)
    );

    let config = Config {
        admin: "swap_deployer".to_string(),
        denom: DENOM.to_string(),
        fees: 0,
        allowed_cw721: None,
    };
    assert!(check_contract_balance_ok(&config, &coin(500), &coin(100)).is_ok());
    assert_eq!(
        check_contract_balance_ok(&config, &coin(50), &coin(100)),
        Err(ContractError::InsufficientBalance)
    );
    let foreign = Coin { denom: "other".to_string(), amount: 100 };
    assert_eq!(
        check_contract_balance_ok(&config, &coin(500), &foreign),
        Err(ContractError::InsufficientBalance)
    );
}

// A native offer smuggled straight into the ledger is still rejected at
// finish time
#[test]
fn native_offer_in_ledger_rejected_at_finish() {
    let mut ledger = SwapLedger::new();
    ledger
        .insert_if_absent(CW721Swap {
            id: "oddswap".to_string(),
            creator: "bidder".to_string(),
            nft_contract: "cw721_contract".to_string(),
            payment_token: None,
            token_id: "petrify".to_string(),
            expires: Expiration::Never,
            price: 100,
            swap_type: SwapType::Offer,
        })
        .unwrap();
    let mut market = market_with_fees(0);
    market.swaps = ledger;

    let res = execute_finish(
        &mut market,
        &mock_env(),
        &info("original_owner"),
        &"original_owner".to_string(),
        FinishSwapMsg { id: "oddswap".to_string() },
    );
    assert_eq!(res, Err(ContractError::InvalidInput));
}
