//! A marketplace ledger for swapping non-fungible assets against a price,
//! paid either in the chain's native currency or in a fungible token.
//!
//! The crate is the decision core of the marketplace: it keeps the ledger of
//! open swaps, enforces authorization and expiration on every lifecycle step,
//! computes the fee split, and composes the transfer intents that a host
//! carries out. It never moves funds itself; every state change is a pure
//! step from plain values to plain values.

pub mod error;
pub mod execute;
pub mod fees;
pub mod laws;
pub mod msg;
pub mod pagination;
pub mod payment;
pub mod query;
pub mod state;
pub mod strorder;
pub mod transfers;
pub mod types;
