//! The plain data the marketplace works over: block positions, expirations,
//! coins, the caller's context, and the swap record itself.

use vstd::prelude::*;

verus! {

/// The views of a sequence of strings.
pub open spec fn string_views(s: Seq<String>) -> Seq<Seq<char>> {
    s.map_values(|x: String| x@)
}

/// Whether a swap sells an asset the creator owns, or bids on one they do not.
#[derive(Clone, Copy, Debug, PartialEq, Eq, Structural)]
pub enum SwapType {
    Offer,
    Sale,
}

/// The point of the chain's history at which a call executes.
#[derive(Clone, Copy, Debug, PartialEq, Eq, Structural)]
pub struct BlockInfo {
    pub height: u64,
    pub time: u64,
}

/// A bound on a swap's lifetime: a block height, a timestamp, or none.
#[derive(Clone, Copy, Debug, PartialEq, Eq, Structural)]
pub enum Expiration {
    AtHeight(u64),
    AtTime(u64),
    Never,
}

impl Expiration {
    /// Whether the bound has passed at the given block.
    pub open spec fn spec_is_expired(self, block: BlockInfo) -> bool {
        match self {
            Expiration::AtHeight(h) => block.height >= h,
            Expiration::AtTime(t) => block.time >= t,
            Expiration::Never => false,
        }
    }

    /// Whether the bound has passed at the given block.
    pub fn is_expired(&self, block: &BlockInfo) -> (r: bool)
        ensures
            r == self.spec_is_expired(*block),
    {
        match self {
            Expiration::AtHeight(h) => block.height >= *h,
            Expiration::AtTime(t) => block.time >= *t,
            Expiration::Never => false,
        }
    }
}

/// An amount of the chain's native currency under a denomination.
#[derive(Clone, Debug, PartialEq)]
pub struct Coin {
    pub denom: String,
    pub amount: u128,
}

/// The mathematical value of a `Coin`.
pub struct CoinV {
    pub denom: Seq<char>,
    pub amount: u128,
}

impl View for Coin {
    type V = CoinV;

    open spec fn view(&self) -> CoinV {
        CoinV { denom: self.denom@, amount: self.amount }
    }
}

impl Coin {
    /// A field-for-field copy.
    pub fn duplicate(&self) -> (r: Coin)
        ensures
            r@ == self@,
    {
        Coin { denom: self.denom.clone(), amount: self.amount }
    }
}

/// The context a call arrives in: the executing block and the address of the
/// marketplace instance itself.
#[derive(Clone, Debug)]
pub struct Env {
    pub block: BlockInfo,
    pub contract_address: String,
}

/// Who sent the call and which native funds arrived attached to it.
#[derive(Debug)]
pub struct MessageInfo {
    pub sender: String,
    pub funds: Vec<Coin>,
}

/// An open swap: one party's standing commitment to exchange one asset for a
/// price. The identity fields are frozen at creation; only `price` and
/// `expires` may later change.
#[derive(Clone, Debug)]
pub struct CW721Swap {
    pub id: String,
    pub creator: String,
    pub nft_contract: String,
    pub payment_token: Option<String>,
    pub token_id: String,
    pub expires: Expiration,
    pub price: u128,
    pub swap_type: SwapType,
}

/// The mathematical value of a swap record.
pub struct SwapV {
    pub id: Seq<char>,
    pub creator: Seq<char>,
    pub nft_contract: Seq<char>,
    pub payment_token: Option<Seq<char>>,
    pub token_id: Seq<char>,
    pub expires: Expiration,
    pub price: u128,
    pub swap_type: SwapType,
}

impl View for CW721Swap {
    type V = SwapV;

    open spec fn view(&self) -> SwapV {
        SwapV {
            id: self.id@,
            creator: self.creator@,
            nft_contract: self.nft_contract@,
            payment_token: match self.payment_token {
                Some(t) => Some(t@),
                None => None,
            },
            token_id: self.token_id@,
            expires: self.expires,
            price: self.price,
            swap_type: self.swap_type,
        }
    }
}

impl CW721Swap {
    /// Whether the record's bound has passed at the given block.
    pub fn is_expired(&self, block: &BlockInfo) -> (r: bool)
        ensures
            r == self.expires.spec_is_expired(*block),
    {
        self.expires.is_expired(block)
    }

    /// A field-for-field copy.
    pub fn duplicate(&self) -> (r: CW721Swap)
        ensures
            r@ == self@,
    {
        CW721Swap {
            id: self.id.clone(),
            creator: self.creator.clone(),
            nft_contract: self.nft_contract.clone(),
            payment_token: match &self.payment_token {
                Some(t) => Some(t.clone()),
                None => None,
            },
            token_id: self.token_id.clone(),
            expires: self.expires,
            price: self.price,
            swap_type: self.swap_type,
        }
    }
}

} // verus!
