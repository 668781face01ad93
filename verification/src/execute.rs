//! The swap lifecycle: Create, Update, Cancel and Finish, plus the
//! administrator's operations. Every operation is a pure step from the
//! marketplace's state and the call's context to a new state and, for
//! Finish and Withdraw, the transfer intents the host must carry out.

use vstd::prelude::*;
use crate::error::ContractError;
use crate::fees::{fee_split, spec_effective_split, FeeSplit};
use crate::msg::{
    CancelMsg, FinishSwapMsg, InstantiateMsg, SwapMsg, SwapMsgV, UpdateMsg, UpdateMsgV,
    WithdrawMsg, WithdrawMsgV,
};
use crate::payment::{
    check_sent_required_payment, coin_views, first_matching_amount, spec_first_amount,
    spec_has_at_least,
};
use crate::state::{
    contains_id, not_same_asset, spec_find, spec_remove_id, spec_upsert, Config, ConfigV,
    SwapLedger,
};
use crate::transfers::{
    handle_swap_transfers, intent_views, spec_transfer_intents, IntentV, TransferIntent,
};
use crate::types::{string_views, BlockInfo, CW721Swap, Coin, CoinV, Env, MessageInfo, SwapType, SwapV};

verus! {

/// The whole marketplace: its configuration and its ledger of open swaps.
#[derive(Debug)]
pub struct Marketplace {
    pub config: Config,
    pub swaps: SwapLedger,
}

impl Marketplace {
    /// The configuration is clamped and the ledger is sorted.
    pub open spec fn wf(self) -> bool {
        self.config.wf() && self.swaps.wf()
    }
}

/// The fail-safe on every configuration write: a fee percentage above 30 is
/// replaced by 0.
pub open spec fn spec_clamp_fee(fee: u64) -> u64 {
    if fee > 30 {
        0u64
    } else {
        fee
    }
}

/// Whether the configuration accepts swaps over this asset collection: it
/// does unless it names an allow-list that leaves the collection out.
pub open spec fn spec_allowed(cfg: ConfigV, cw721: Seq<char>) -> bool {
    match cfg.allowed_cw721 {
        None => true,
        Some(list) => list.contains(cw721),
    }
}

/// Whether the configured allow-list, if any, accepts the collection.
pub fn cw721_allowed(config: &Config, cw721: &String) -> (r: bool)
    ensures
        r == spec_allowed(config@, cw721@),
{
    if config.allowed_cw721.is_some() {
        let list: &Vec<String> = config.allowed_cw721.as_ref().unwrap();
        let ghost lv = string_views(list@);
        let mut i: usize = 0;
        while i < list.len()
            invariant
                i <= list.len(),
                lv == string_views(list@),
                config@.allowed_cw721 == Some(lv),
                forall|j: int| 0 <= j < i ==> lv[j] != cw721@,
            decreases list.len() - i,
        {
            if list[i] == *cw721 {
                proof {
                    assert(lv[i as int] == cw721@);
                    assert(lv.contains(cw721@));
                }
                return true;
            }
            i += 1;
        }
        proof {
            assert(!lv.contains(cw721@));
        }
        false
    } else {
        true
    }
}

/// The record a creation request persists.
pub open spec fn spec_new_record(sender: Seq<char>, msg: SwapMsgV) -> SwapV {
    SwapV {
        id: msg.id,
        creator: sender,
        nft_contract: msg.cw721,
        payment_token: msg.payment_token,
        token_id: msg.token_id,
        expires: msg.expires,
        price: msg.price,
        swap_type: msg.swap_type,
    }
}

/// What creating a swap does to the ledger. In order: an already-expired
/// request is `Expired`; a collection outside the allow-list is
/// `Unauthorized`; a sale by anyone but the asset's reported owner is
/// `Unauthorized`; an offer without a fungible payment token is
/// `InvalidPaymentToken`; a taken id is `AlreadyExists`; otherwise the new
/// record is stored.
pub open spec fn spec_create(
    cfg: ConfigV,
    l: Seq<SwapV>,
    block: BlockInfo,
    sender: Seq<char>,
    token_owner: Seq<char>,
    msg: SwapMsgV,
) -> Result<Seq<SwapV>, ContractError> {
    if msg.expires.spec_is_expired(block) {
        Err(ContractError::Expired)
    } else if !spec_allowed(cfg, msg.cw721) {
        Err(ContractError::Unauthorized)
    } else if msg.swap_type == SwapType::Sale && token_owner != sender {
        Err(ContractError::Unauthorized)
    } else if msg.swap_type == SwapType::Offer && msg.payment_token is None {
        Err(ContractError::InvalidPaymentToken)
    } else if contains_id(l, msg.id) {
        Err(ContractError::AlreadyExists)
    } else {
        Ok(spec_upsert(l, spec_new_record(sender, msg)))
    }
}

/// What updating a swap does to the ledger: a missing id is `NotFound`, a
/// caller other than the creator is `Unauthorized`, and otherwise the record
/// is stored again with the new price and expiration and nothing else
/// changed.
pub open spec fn spec_update(l: Seq<SwapV>, sender: Seq<char>, msg: UpdateMsgV) -> Result<
    Seq<SwapV>,
    ContractError,
> {
    match spec_find(l, msg.id) {
        None => Err(ContractError::NotFound),
        Some(swap) => {
            if sender != swap.creator {
                Err(ContractError::Unauthorized)
            } else {
                Ok(
                    spec_upsert(
                        l,
                        SwapV { expires: msg.expires, price: msg.price, ..swap },
                    ),
                )
            }
        },
    }
}

/// What cancelling a swap does to the ledger: a missing id is `NotFound`, a
/// caller other than the creator is `Unauthorized`, and otherwise the record
/// is dropped.
pub open spec fn spec_cancel(l: Seq<SwapV>, sender: Seq<char>, id: Seq<char>) -> Result<
    Seq<SwapV>,
    ContractError,
> {
    match spec_find(l, id) {
        None => Err(ContractError::NotFound),
        Some(swap) => {
            if sender != swap.creator {
                Err(ContractError::Unauthorized)
            } else {
                Ok(spec_remove_id(l, id))
            }
        },
    }
}

/// What finishing a swap does. In order: a missing id is `NotFound`; an
/// expired record is `Expired`; a native-currency offer is `InvalidInput`
/// (offers must be priced in a fungible token); native funds short of the
/// price are `InsufficientFunds`; an offer accepted by anyone but the
/// asset's reported owner is `Unauthorized`. Otherwise every record on the
/// same asset leaves the ledger and the transfer intents are composed: for a
/// sale the asset flows creator to caller and the payment caller to creator,
/// for an offer the roles swap. A native payment forwards the first attached
/// coin under the configured denomination in full — overpayment included —
/// minus the marketplace's share of the fee split.
pub open spec fn spec_finish(
    cfg: ConfigV,
    l: Seq<SwapV>,
    block: BlockInfo,
    sender: Seq<char>,
    token_owner: Seq<char>,
    funds: Seq<CoinV>,
    contract_address: Seq<char>,
    id: Seq<char>,
) -> Result<(Seq<SwapV>, Seq<IntentV>), ContractError> {
    match spec_find(l, id) {
        None => Err(ContractError::NotFound),
        Some(swap) => {
            if swap.expires.spec_is_expired(block) {
                Err(ContractError::Expired)
            } else if swap.payment_token is None && swap.swap_type == SwapType::Offer {
                Err(ContractError::InvalidInput)
            } else if swap.payment_token is None && !spec_has_at_least(
                funds,
                Some(CoinV { denom: cfg.denom, amount: swap.price }),
            ) {
                Err(ContractError::InsufficientFunds)
            } else if swap.swap_type == SwapType::Offer && token_owner != sender {
                Err(ContractError::Unauthorized)
            } else {
                let base = if swap.payment_token is None {
                    match spec_first_amount(funds, cfg.denom) {
                        Some(a) => a,
                        None => swap.price,
                    }
                } else {
                    swap.price
                };
                let split = spec_effective_split(cfg.fees, base);
                let nft_sender = if swap.swap_type == SwapType::Sale {
                    swap.creator
                } else {
                    sender
                };
                let nft_receiver = if swap.swap_type == SwapType::Sale {
                    sender
                } else {
                    swap.creator
                };
                Ok(
                    (
                        l.filter(not_same_asset(swap.nft_contract, swap.token_id)),
                        spec_transfer_intents(
                            swap,
                            nft_sender,
                            nft_receiver,
                            cfg.denom,
                            contract_address,
                            split,
                        ),
                    ),
                )
            }
        },
    }
}

/// The intent a fee withdrawal composes: a native send of `amount` under
/// `denom`, or a fungible transfer out of the marketplace's own balance.
pub open spec fn spec_withdraw_intent(recipient: Seq<char>, msg: WithdrawMsgV) -> IntentV {
    match msg.payment_token {
        None => IntentV::NativeSend {
            to: recipient,
            fund: CoinV { denom: msg.denom, amount: msg.amount },
        },
        Some(token) => IntentV::Cw20Transfer { token: token, recipient: recipient, amount: msg.amount },
    }
}

/// Sets the marketplace up: an empty ledger, and the given parameters with
/// the fee percentage clamped to 0 where it exceeds 30.
pub fn instantiate(msg: InstantiateMsg) -> (r: Marketplace)
    ensures
        r.wf(),
        r.swaps@ == Seq::<SwapV>::empty(),
        r.config@.admin == msg.admin@,
        r.config@.denom == msg.denom@,
        r.config@.fees == spec_clamp_fee(msg.fee_percentage),
        r.config@.allowed_cw721 == (match msg.cw721 {
            Some(v) => Some(string_views(v@)),
            None => None::<Seq<Seq<char>>>,
        }),
{
    let fees: u64 = if msg.fee_percentage > 30 {
        0
    } else {
        msg.fee_percentage
    };
    Marketplace {
        config: Config {
            admin: msg.admin,
            denom: msg.denom,
            fees,
            allowed_cw721: msg.cw721,
        },
        swaps: SwapLedger::new(),
    }
}

/// Opens a swap. `token_owner` is the asset registry's reported owner of
/// `(msg.cw721, msg.token_id)`, read by the host at call time; it is
/// consulted only for a sale, whose creator must own the asset.
pub fn execute_create(
    state: &mut Marketplace,
    env: &Env,
    info: &MessageInfo,
    token_owner: &String,
    msg: SwapMsg,
) -> (r: Result<(), ContractError>)
    requires
        old(state).wf(),
    ensures
        final(state).wf(),
        final(state).config == old(state).config,
        (match spec_create(
            old(state).config@,
            old(state).swaps@,
            env.block,
            info.sender@,
            token_owner@,
            msg@,
        ) {
            Ok(l2) => r is Ok && final(state).swaps@ == l2,
            Err(e) => r == Err::<(), ContractError>(e) && final(state).swaps@ == old(
                state,
            ).swaps@,
        }),
{
    if msg.expires.is_expired(&env.block) {
        return Err(ContractError::Expired);
    }
    if !cw721_allowed(&state.config, &msg.cw721) {
        return Err(ContractError::Unauthorized);
    }
    if msg.swap_type == SwapType::Sale {
        if !(*token_owner == info.sender) {
            return Err(ContractError::Unauthorized);
        }
    } else {
        if msg.payment_token.is_none() {
            return Err(ContractError::InvalidPaymentToken);
        }
    }
    let record = CW721Swap {
        id: msg.id,
        creator: info.sender.clone(),
        nft_contract: msg.cw721,
        payment_token: msg.payment_token,
        token_id: msg.token_id,
        expires: msg.expires,
        price: msg.price,
        swap_type: msg.swap_type,
    };
    match state.swaps.insert_if_absent(record) {
        Ok(()) => Ok(()),
        Err(e) => Err(e),
    }
}

/// Changes a swap's price and expiration. Only the creator may; every other
/// field keeps the value it was created with.
pub fn execute_update(
    state: &mut Marketplace,
    _env: &Env,
    info: &MessageInfo,
    msg: UpdateMsg,
) -> (r: Result<(), ContractError>)
    requires
        old(state).wf(),
    ensures
        final(state).wf(),
        final(state).config == old(state).config,
        (match spec_update(old(state).swaps@, info.sender@, msg@) {
            Ok(l2) => r is Ok && final(state).swaps@ == l2,
            Err(e) => r == Err::<(), ContractError>(e) && final(state).swaps@ == old(
                state,
            ).swaps@,
        }),
{
    let swap = match state.swaps.load(&msg.id) {
        Ok(s) => s,
        Err(e) => { return Err(e) },
    };
    if !(info.sender == swap.creator) {
        return Err(ContractError::Unauthorized);
    }
    let updated = CW721Swap {
        id: swap.id,
        creator: swap.creator,
        nft_contract: swap.nft_contract,
        payment_token: swap.payment_token,
        token_id: swap.token_id,
        expires: msg.expires,
        price: msg.price,
        swap_type: swap.swap_type,
    };
    state.swaps.replace(updated);
    Ok(())
}

/// Withdraws an open swap. Only the creator may.
pub fn execute_cancel(
    state: &mut Marketplace,
    _env: &Env,
    info: &MessageInfo,
    msg: CancelMsg,
) -> (r: Result<(), ContractError>)
    requires
        old(state).wf(),
    ensures
        final(state).wf(),
        final(state).config == old(state).config,
        (match spec_cancel(old(state).swaps@, info.sender@, msg.id@) {
            Ok(l2) => r is Ok && final(state).swaps@ == l2,
            Err(e) => r == Err::<(), ContractError>(e) && final(state).swaps@ == old(
                state,
            ).swaps@,
        }),
{
    let swap = match state.swaps.load(&msg.id) {
        Ok(s) => s,
        Err(e) => { return Err(e) },
    };
    if !(info.sender == swap.creator) {
        return Err(ContractError::Unauthorized);
    }
    state.swaps.delete(&msg.id);
    Ok(())
}

/// Consumes a swap at its listed terms and composes the transfer intents.
/// `token_owner` is the asset registry's reported owner of the swapped
/// asset, read by the host at call time; it is consulted only when an offer
/// is accepted, which only the asset's owner may do.
pub fn execute_finish(
    state: &mut Marketplace,
    env: &Env,
    info: &MessageInfo,
    token_owner: &String,
    msg: FinishSwapMsg,
) -> (r: Result<Vec<TransferIntent>, ContractError>)
    requires
        old(state).wf(),
    ensures
        final(state).wf(),
        final(state).config == old(state).config,
        (match spec_finish(
            old(state).config@,
            old(state).swaps@,
            env.block,
            info.sender@,
            token_owner@,
            coin_views(info.funds@),
            env.contract_address@,
            msg.id@,
        ) {
            Ok(pair) => r is Ok && final(state).swaps@ == pair.0 && intent_views(r.unwrap()@)
                == pair.1,
            Err(e) => r == Err::<Vec<TransferIntent>, ContractError>(e) && final(state).swaps@
                == old(state).swaps@,
        }),
{
    let swap = match state.swaps.load(&msg.id) {
        Ok(s) => s,
        Err(e) => { return Err(e) },
    };
    if swap.is_expired(&env.block) {
        return Err(ContractError::Expired);
    }
    if swap.payment_token.is_none() {
        if swap.swap_type == SwapType::Offer {
            return Err(ContractError::InvalidInput);
        }
        let required = Coin { denom: state.config.denom.clone(), amount: swap.price };
        match check_sent_required_payment(&info.funds, Some(required)) {
            Ok(()) => {},
            Err(e) => { return Err(e) },
        }
    }
    if swap.swap_type == SwapType::Offer {
        if !(*token_owner == info.sender) {
            return Err(ContractError::Unauthorized);
        }
    }
    let base: u128 = if swap.payment_token.is_none() {
        match first_matching_amount(&info.funds, &state.config.denom) {
            Some(a) => a,
            None => swap.price,
        }
    } else {
        swap.price
    };
    let split: FeeSplit = match fee_split(&state.config, base) {
        Ok(s) => s,
        Err(_) => FeeSplit::only_seller(base),
    };
    let intents = if swap.swap_type == SwapType::Sale {
        handle_swap_transfers(env, &swap.creator, &info.sender, &swap, &state.config.denom, split)
    } else {
        handle_swap_transfers(env, &info.sender, &swap.creator, &swap, &state.config.denom, split)
    };
    state.swaps.delete_matching_asset(&swap.nft_contract, &swap.token_id);
    Ok(intents)
}

/// Replaces the configuration. Only the administrator may; the fee
/// percentage passes through the same fail-safe clamp as at instantiation,
/// keeping it within the range every fee split relies on.
pub fn execute_update_config(
    state: &mut Marketplace,
    _env: &Env,
    info: &MessageInfo,
    config_update: Config,
) -> (r: Result<(), ContractError>)
    requires
        old(state).wf(),
    ensures
        final(state).wf(),
        final(state).swaps@ == old(state).swaps@,
        info.sender@ != old(state).config@.admin ==> r == Err::<(), ContractError>(
            ContractError::Unauthorized,
        ) && final(state).config == old(state).config,
        info.sender@ == old(state).config@.admin ==> r is Ok && final(state).config@ == (ConfigV {
            fees: spec_clamp_fee(config_update@.fees),
            ..config_update@
        }),
{
    if !(info.sender == state.config.admin) {
        return Err(ContractError::Unauthorized);
    }
    let fees: u64 = if config_update.fees > 30 {
        0
    } else {
        config_update.fees
    };
    state.config = Config {
        admin: config_update.admin,
        denom: config_update.denom,
        fees,
        allowed_cw721: config_update.allowed_cw721,
    };
    Ok(())
}

/// Composes the intent that pays collected fees out to the administrator.
/// Only the administrator may ask for it.
pub fn execute_withdraw_fees(
    state: &Marketplace,
    _env: &Env,
    info: &MessageInfo,
    msg: WithdrawMsg,
) -> (r: Result<TransferIntent, ContractError>)
    ensures
        info.sender@ != state.config@.admin ==> r == Err::<TransferIntent, ContractError>(
            ContractError::Unauthorized,
        ),
        info.sender@ == state.config@.admin ==> r is Ok && r.unwrap()@ == spec_withdraw_intent(
            info.sender@,
            msg@,
        ),
{
    if !(info.sender == state.config.admin) {
        return Err(ContractError::Unauthorized);
    }
    if msg.payment_token.is_none() {
        Ok(
            TransferIntent::NativeSend {
                to: info.sender.clone(),
                fund: Coin { denom: msg.denom, amount: msg.amount },
            },
        )
    } else {
        let token = msg.payment_token.unwrap();
        Ok(
            TransferIntent::Cw20Transfer {
                token,
                recipient: info.sender.clone(),
                amount: msg.amount,
            },
        )
    }
}

} // verus!
