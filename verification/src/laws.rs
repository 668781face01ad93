//! The marketplace's standing guarantees, proved once over the lifecycle's
//! transition functions: what no sequence of calls can ever violate.

use vstd::prelude::*;
use crate::error::ContractError;
use crate::execute::{spec_cancel, spec_create, spec_finish, spec_new_record, spec_update};
use crate::msg::{SwapMsgV, UpdateMsgV};
use crate::state::{
    lemma_find_after_upsert, lemma_find_contains, lemma_upsert_contains, not_same_asset,
    sorted_by_id, spec_find, ConfigV,
};
use crate::transfers::IntentV;
use crate::types::{BlockInfo, CoinV, SwapV};

verus! {

/// Creating a swap and then creating again under the same id, in the same
/// context, succeeds the first time and fails `AlreadyExists` the second.
pub proof fn lemma_create_twice(
    cfg: ConfigV,
    l: Seq<SwapV>,
    block: BlockInfo,
    sender: Seq<char>,
    token_owner: Seq<char>,
    msg: SwapMsgV,
    l1: Seq<SwapV>,
)
    requires
        spec_create(cfg, l, block, sender, token_owner, msg) == Ok::<Seq<SwapV>, ContractError>(l1),
    ensures
        spec_create(cfg, l1, block, sender, token_owner, msg) == Err::<Seq<SwapV>, ContractError>(
            ContractError::AlreadyExists,
        ),
{
    lemma_upsert_contains(l, spec_new_record(sender, msg));
}

/// Only the creator can update a swap: any other caller gets
/// `Unauthorized`, whatever the update asks for.
pub proof fn lemma_only_creator_updates(l: Seq<SwapV>, sender: Seq<char>, msg: UpdateMsgV)
    requires
        spec_find(l, msg.id) is Some,
        sender != spec_find(l, msg.id).unwrap().creator,
    ensures
        spec_update(l, sender, msg) == Err::<Seq<SwapV>, ContractError>(
            ContractError::Unauthorized,
        ),
{
}

/// Only the creator can cancel a swap: any other caller gets
/// `Unauthorized`.
pub proof fn lemma_only_creator_cancels(l: Seq<SwapV>, sender: Seq<char>, id: Seq<char>)
    requires
        spec_find(l, id) is Some,
        sender != spec_find(l, id).unwrap().creator,
    ensures
        spec_cancel(l, sender, id) == Err::<Seq<SwapV>, ContractError>(
            ContractError::Unauthorized,
        ),
{
}

/// An update changes only the price and the expiration: the creator, the
/// asset, the payment token and the side keep the values the swap was
/// created with, and afterwards the record is found under its id with
/// exactly those fields.
pub proof fn lemma_update_freezes_identity(
    l: Seq<SwapV>,
    sender: Seq<char>,
    msg: UpdateMsgV,
    l1: Seq<SwapV>,
)
    requires
        sorted_by_id(l),
        spec_update(l, sender, msg) == Ok::<Seq<SwapV>, ContractError>(l1),
    ensures
        spec_find(l1, msg.id) == Some(
            SwapV { expires: msg.expires, price: msg.price, ..spec_find(l, msg.id).unwrap() },
        ),
{
    lemma_find_contains(l, msg.id);
    let stored = SwapV { expires: msg.expires, price: msg.price, ..spec_find(l, msg.id).unwrap() };
    assert(stored.id == msg.id);
    lemma_find_after_upsert(l, stored);
}

/// An expired creation request always fails `Expired`, whatever else holds
/// of the request, the caller, or the ledger.
pub proof fn lemma_expired_create_rejected(
    cfg: ConfigV,
    l: Seq<SwapV>,
    block: BlockInfo,
    sender: Seq<char>,
    token_owner: Seq<char>,
    msg: SwapMsgV,
)
    requires
        msg.expires.spec_is_expired(block),
    ensures
        spec_create(cfg, l, block, sender, token_owner, msg) == Err::<Seq<SwapV>, ContractError>(
            ContractError::Expired,
        ),
{
}

/// Finishing an expired record always fails `Expired`, whatever else holds
/// of the payment, the caller, or the ledger.
pub proof fn lemma_expired_finish_rejected(
    cfg: ConfigV,
    l: Seq<SwapV>,
    block: BlockInfo,
    sender: Seq<char>,
    token_owner: Seq<char>,
    funds: Seq<CoinV>,
    contract_address: Seq<char>,
    id: Seq<char>,
)
    requires
        spec_find(l, id) is Some,
        spec_find(l, id).unwrap().expires.spec_is_expired(block),
    ensures
        spec_finish(cfg, l, block, sender, token_owner, funds, contract_address, id) == Err::<
            (Seq<SwapV>, Seq<IntentV>),
            ContractError,
        >(ContractError::Expired),
{
}

/// Finishing a swap removes every record referencing the same asset — both
/// sales and offers — and nothing else: the remaining ledger is exactly the
/// old one filtered down to the other assets.
pub proof fn lemma_finish_clears_asset(
    cfg: ConfigV,
    l: Seq<SwapV>,
    block: BlockInfo,
    sender: Seq<char>,
    token_owner: Seq<char>,
    funds: Seq<CoinV>,
    contract_address: Seq<char>,
    id: Seq<char>,
    l1: Seq<SwapV>,
    intents: Seq<IntentV>,
)
    requires
        spec_finish(cfg, l, block, sender, token_owner, funds, contract_address, id) == Ok::<
            (Seq<SwapV>, Seq<IntentV>),
            ContractError,
        >((l1, intents)),
    ensures
        ({
            let swap = spec_find(l, id).unwrap();
            forall|j: int|
                0 <= j < l1.len() ==> !((#[trigger] l1[j]).nft_contract == swap.nft_contract
                    && l1[j].token_id == swap.token_id)
        }),
        l1 == l.filter(
            not_same_asset(spec_find(l, id).unwrap().nft_contract, spec_find(l, id).unwrap().token_id),
        ),
{
    let swap = spec_find(l, id).unwrap();
    let p = not_same_asset(swap.nft_contract, swap.token_id);
    assert forall|j: int|
        0 <= j < l1.len() implies !((#[trigger] l1[j]).nft_contract == swap.nft_contract
        && l1[j].token_id == swap.token_id) by {
        Seq::lemma_filter_pred(l, p, j);
        assert(p(l1[j]));
    }
}

} // verus!
