//! Transfer intents: the movements of assets and funds that a finished swap
//! calls for. The marketplace only composes them; the host carries them out
//! atomically.

use vstd::prelude::*;
use crate::fees::FeeSplit;
use crate::types::{CW721Swap, Coin, CoinV, Env, SwapV};

verus! {

/// One movement of an asset or of funds, described but not executed.
#[derive(Clone, Debug, PartialEq)]
pub enum TransferIntent {
    /// Hand the asset over to `recipient`.
    TransferNft { collection: String, recipient: String, token_id: String },
    /// Draw `amount` of the fungible token from `owner`'s allowance and
    /// credit `recipient`.
    Cw20TransferFrom { token: String, owner: String, recipient: String, amount: u128 },
    /// Pay `amount` of the fungible token out of the marketplace's own
    /// balance to `recipient`.
    Cw20Transfer { token: String, recipient: String, amount: u128 },
    /// Send native funds from the marketplace's account to `to`.
    NativeSend { to: String, fund: Coin },
}

/// The mathematical value of a `TransferIntent`.
pub enum IntentV {
    TransferNft { collection: Seq<char>, recipient: Seq<char>, token_id: Seq<char> },
    Cw20TransferFrom { token: Seq<char>, owner: Seq<char>, recipient: Seq<char>, amount: u128 },
    Cw20Transfer { token: Seq<char>, recipient: Seq<char>, amount: u128 },
    NativeSend { to: Seq<char>, fund: CoinV },
}

impl View for TransferIntent {
    type V = IntentV;

    open spec fn view(&self) -> IntentV {
        match self {
            TransferIntent::TransferNft { collection, recipient, token_id } => {
                IntentV::TransferNft {
                    collection: collection@,
                    recipient: recipient@,
                    token_id: token_id@,
                }
            },
            TransferIntent::Cw20TransferFrom { token, owner, recipient, amount } => {
                IntentV::Cw20TransferFrom {
                    token: token@,
                    owner: owner@,
                    recipient: recipient@,
                    amount: *amount,
                }
            },
            TransferIntent::Cw20Transfer { token, recipient, amount } => {
                IntentV::Cw20Transfer { token: token@, recipient: recipient@, amount: *amount }
            },
            TransferIntent::NativeSend { to, fund } => {
                IntentV::NativeSend { to: to@, fund: fund@ }
            },
        }
    }
}

/// The views of a sequence of intents.
pub open spec fn intent_views(s: Seq<TransferIntent>) -> Seq<IntentV> {
    s.map_values(|x: TransferIntent| x@)
}

/// The ordered intents a finished swap calls for: first the asset moves to
/// `nft_receiver`, then the seller's share moves to `nft_sender` (drawn from
/// `nft_receiver`'s allowance for a fungible price, sent from the attached
/// native funds otherwise), and last — only for a fungible price with a
/// nonzero fee — the marketplace's share moves to its own account.
pub open spec fn spec_transfer_intents(
    details: SwapV,
    nft_sender: Seq<char>,
    nft_receiver: Seq<char>,
    denom: Seq<char>,
    contract_address: Seq<char>,
    split: FeeSplit,
) -> Seq<IntentV> {
    let asset = IntentV::TransferNft {
        collection: details.nft_contract,
        recipient: nft_receiver,
        token_id: details.token_id,
    };
    let payment = match details.payment_token {
        Some(token) => IntentV::Cw20TransferFrom {
            token: token,
            owner: nft_receiver,
            recipient: nft_sender,
            amount: split.seller,
        },
        None => IntentV::NativeSend {
            to: nft_sender,
            fund: CoinV { denom: denom, amount: split.seller },
        },
    };
    let base = seq![asset, payment];
    match details.payment_token {
        Some(token) => if split.marketplace > 0 {
            base.push(
                IntentV::Cw20TransferFrom {
                    token: token,
                    owner: nft_receiver,
                    recipient: contract_address,
                    amount: split.marketplace,
                },
            )
        } else {
            base
        },
        None => base,
    }
}

/// Composes the transfer intents for a finished swap, in the fixed order:
/// asset first, the seller's payment second, the marketplace's fee last.
pub fn handle_swap_transfers(
    env: &Env,
    nft_sender: &String,
    nft_receiver: &String,
    details: &CW721Swap,
    denom: &String,
    split: FeeSplit,
) -> (r: Vec<TransferIntent>)
    ensures
        intent_views(r@) == spec_transfer_intents(
            details@,
            nft_sender@,
            nft_receiver@,
            denom@,
            env.contract_address@,
            split,
        ),
{
    let mut out: Vec<TransferIntent> = Vec::new();
    out.push(
        TransferIntent::TransferNft {
            collection: details.nft_contract.clone(),
            recipient: nft_receiver.clone(),
            token_id: details.token_id.clone(),
        },
    );
    match &details.payment_token {
        Some(token) => {
            out.push(
                TransferIntent::Cw20TransferFrom {
                    token: token.clone(),
                    owner: nft_receiver.clone(),
                    recipient: nft_sender.clone(),
                    amount: split.seller,
                },
            );
            if split.marketplace > 0 {
                out.push(
                    TransferIntent::Cw20TransferFrom {
                        token: token.clone(),
                        owner: nft_receiver.clone(),
                        recipient: env.contract_address.clone(),
                        amount: split.marketplace,
                    },
                );
            }
        },
        None => {
            out.push(
                TransferIntent::NativeSend {
                    to: nft_sender.clone(),
                    fund: Coin { denom: denom.clone(), amount: split.seller },
                },
            );
        },
    }
    proof {
        assert(intent_views(out@) =~= spec_transfer_intents(
            details@,
            nft_sender@,
            nft_receiver@,
            denom@,
            env.contract_address@,
            split,
        ));
    }
    out
}

} // verus!
