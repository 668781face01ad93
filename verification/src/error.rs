//! The errors a marketplace call can be rejected with. Every error aborts the
//! whole call; no state change survives a rejection.

use vstd::prelude::*;

verus! {

/// Why a call was rejected.
#[derive(Clone, Copy, Debug, PartialEq, Eq, Structural)]
pub enum ContractError {
    /// The record (or the creation message) is past its expiration bound.
    Expired,
    /// The caller is not entitled to this operation on this record.
    Unauthorized,
    /// A record with this id already exists.
    AlreadyExists,
    /// No record with this id exists.
    NotFound,
    /// The request contradicts the marketplace's rules.
    InvalidInput,
    /// An offer was placed without naming a fungible payment token.
    InvalidPaymentToken,
    /// The attached funds do not cover the required amount.
    InsufficientFunds,
    /// The attached funds do not match the required amount exactly.
    ExactFundsMismatch,
    /// The marketplace's own balance does not cover the requested amount.
    InsufficientBalance,
}

impl ContractError {
    /// A short description of the error.
    pub fn text(&self) -> String {
        match self {
            ContractError::Expired => "expired swap".to_owned(),
            ContractError::Unauthorized => "unauthorized".to_owned(),
            ContractError::AlreadyExists => "swap already exists".to_owned(),
            ContractError::NotFound => "swap not found".to_owned(),
            ContractError::InvalidInput => "invalid input".to_owned(),
            ContractError::InvalidPaymentToken => "invalid payment token".to_owned(),
            ContractError::InsufficientFunds => "insufficient funds sent".to_owned(),
            ContractError::ExactFundsMismatch => "must send exactly the required funds".to_owned(),
            ContractError::InsufficientBalance => "insufficient contract balance".to_owned(),
        }
    }
}

} // verus!
