//! The request messages the marketplace's mutating operations take.

use vstd::prelude::*;
use crate::types::{Expiration, SwapType};

verus! {

/// The parameters the marketplace is set up with. A fee percentage above 30
/// is clamped to 0, as a conservative fail-safe.
#[derive(Clone, Debug)]
pub struct InstantiateMsg {
    pub admin: String,
    pub denom: String,
    pub cw721: Option<Vec<String>>,
    pub fee_percentage: u64,
}

/// A request to open a swap.
#[derive(Clone, Debug)]
pub struct SwapMsg {
    pub id: String,
    pub cw721: String,
    /// The fungible token the price is denominated in; `None` prices the
    /// swap in the native currency.
    pub payment_token: Option<String>,
    pub token_id: String,
    pub expires: Expiration,
    pub price: u128,
    pub swap_type: SwapType,
}

/// The mathematical value of a `SwapMsg`.
pub struct SwapMsgV {
    pub id: Seq<char>,
    pub cw721: Seq<char>,
    pub payment_token: Option<Seq<char>>,
    pub token_id: Seq<char>,
    pub expires: Expiration,
    pub price: u128,
    pub swap_type: SwapType,
}

impl View for SwapMsg {
    type V = SwapMsgV;

    open spec fn view(&self) -> SwapMsgV {
        SwapMsgV {
            id: self.id@,
            cw721: self.cw721@,
            payment_token: match self.payment_token {
                Some(t) => Some(t@),
                None => None,
            },
            token_id: self.token_id@,
            expires: self.expires,
            price: self.price,
            swap_type: self.swap_type,
        }
    }
}

/// A request to change a swap's price and expiration; everything else about
/// a swap is frozen at creation.
#[derive(Clone, Debug)]
pub struct UpdateMsg {
    pub id: String,
    pub expires: Expiration,
    pub price: u128,
}

/// The mathematical value of an `UpdateMsg`.
pub struct UpdateMsgV {
    pub id: Seq<char>,
    pub expires: Expiration,
    pub price: u128,
}

impl View for UpdateMsg {
    type V = UpdateMsgV;

    open spec fn view(&self) -> UpdateMsgV {
        UpdateMsgV { id: self.id@, expires: self.expires, price: self.price }
    }
}

/// A request to withdraw a swap that has not been consumed.
#[derive(Clone, Debug)]
pub struct CancelMsg {
    pub id: String,
}

/// A request to consume a swap at its listed terms.
#[derive(Clone, Debug)]
pub struct FinishSwapMsg {
    pub id: String,
}

/// An administrator's request to pay collected fees out of the marketplace's
/// own account: native funds under `denom`, or `amount` of a fungible token.
#[derive(Clone, Debug)]
pub struct WithdrawMsg {
    pub amount: u128,
    pub denom: String,
    pub payment_token: Option<String>,
}

/// The mathematical value of a `WithdrawMsg`.
pub struct WithdrawMsgV {
    pub amount: u128,
    pub denom: Seq<char>,
    pub payment_token: Option<Seq<char>>,
}

impl View for WithdrawMsg {
    type V = WithdrawMsgV;

    open spec fn view(&self) -> WithdrawMsgV {
        WithdrawMsgV {
            amount: self.amount,
            denom: self.denom@,
            payment_token: match self.payment_token {
                Some(t) => Some(t@),
                None => None,
            },
        }
    }
}

/// A migration request; the version bookkeeping itself lives with the host.
#[derive(Clone, Copy, Debug, PartialEq, Eq, Structural)]
pub struct MigrateMsg {}

} // verus!
