//! Payment validation: whether the funds attached to a call satisfy a
//! required amount, either at least or exactly, and what a native payment
//! actually delivered.

use vstd::prelude::*;
use crate::error::ContractError;
use crate::state::Config;
use crate::types::{Coin, CoinV};

verus! {

/// The views of a sequence of coins.
pub open spec fn coin_views(s: Seq<Coin>) -> Seq<CoinV> {
    s.map_values(|c: Coin| c@)
}

/// Whether some attached coin carries the required denomination with at
/// least the required amount. A required amount of zero asks for nothing.
pub open spec fn spec_has_at_least(sent: Seq<CoinV>, required: Option<CoinV>) -> bool {
    match required {
        None => true,
        Some(req) => req.amount == 0 || exists|i: int|
            0 <= i < sent.len() && sent[i].denom == req.denom && sent[i].amount >= req.amount,
    }
}

/// Whether some attached coin carries the required denomination with exactly
/// the required amount. A required amount of zero asks for nothing.
pub open spec fn spec_has_exact(sent: Seq<CoinV>, required: Option<CoinV>) -> bool {
    match required {
        None => true,
        Some(req) => req.amount == 0 || exists|i: int|
            0 <= i < sent.len() && sent[i].denom == req.denom && sent[i].amount == req.amount,
    }
}

/// The amount of the first attached coin under `denom`, if any coin carries
/// that denomination.
pub open spec fn spec_first_amount(sent: Seq<CoinV>, denom: Seq<char>) -> Option<u128>
    decreases sent.len(),
{
    if sent.len() == 0 {
        None
    } else if sent[0].denom == denom {
        Some(sent[0].amount)
    } else {
        spec_first_amount(sent.skip(1), denom)
    }
}

/// Accepts the attached funds when they cover the required coin: some entry
/// matches its denomination and reaches its amount.
pub fn check_sent_required_payment(sent: &Vec<Coin>, required: Option<Coin>) -> (r: Result<
    (),
    ContractError,
>)
    ensures
        r == if spec_has_at_least(coin_views(sent@), match required {
            Some(c) => Some(c@),
            None => None,
        }) {
            Result::<(), ContractError>::Ok(())
        } else {
            Result::<(), ContractError>::Err(ContractError::InsufficientFunds)
        },
{
    if required.is_some() {
        let required_coin: &Coin = required.as_ref().unwrap();
        if required_coin.amount > 0 {
            let mut i: usize = 0;
            while i < sent.len()
                invariant
                    i <= sent.len(),
                    required == Some(*required_coin),
                    forall|j: int|
                        0 <= j < i ==> !(coin_views(sent@)[j].denom == required_coin@.denom
                            && coin_views(sent@)[j].amount >= required_coin@.amount),
                decreases sent.len() - i,
            {
                if sent[i].denom == required_coin.denom && sent[i].amount >= required_coin.amount {
                    proof {
                        let cv = coin_views(sent@);
                        let w = i as int;
                        assert(0 <= w < cv.len() && cv[w].denom == required_coin@.denom
                            && cv[w].amount >= required_coin@.amount);
                        assert(spec_has_at_least(cv, Some(required_coin@)));
                    }
                    return Ok(());
                }
                i += 1;
            }
            return Err(ContractError::InsufficientFunds);
        }
    }
    Ok(())
}

/// Accepts the attached funds only when some entry matches the required
/// denomination with exactly the required amount.
pub fn check_sent_required_payment_exact(sent: &Vec<Coin>, required: Option<Coin>) -> (r: Result<
    (),
    ContractError,
>)
    ensures
        r == if spec_has_exact(coin_views(sent@), match required {
            Some(c) => Some(c@),
            None => None,
        }) {
            Result::<(), ContractError>::Ok(())
        } else {
            Result::<(), ContractError>::Err(ContractError::ExactFundsMismatch)
        },
{
    if required.is_some() {
        let required_coin: &Coin = required.as_ref().unwrap();
        if required_coin.amount > 0 {
            let mut i: usize = 0;
            while i < sent.len()
                invariant
                    i <= sent.len(),
                    required == Some(*required_coin),
                    forall|j: int|
                        0 <= j < i ==> !(coin_views(sent@)[j].denom == required_coin@.denom
                            && coin_views(sent@)[j].amount == required_coin@.amount),
                decreases sent.len() - i,
            {
                if sent[i].denom == required_coin.denom && sent[i].amount == required_coin.amount {
                    proof {
                        let cv = coin_views(sent@);
                        let w = i as int;
                        assert(0 <= w < cv.len() && cv[w].denom == required_coin@.denom
                            && cv[w].amount == required_coin@.amount);
                        assert(spec_has_exact(cv, Some(required_coin@)));
                    }
                    return Ok(());
                }
                i += 1;
            }
            return Err(ContractError::ExactFundsMismatch);
        }
    }
    Ok(())
}

/// Accepts a withdrawal request when it is phrased in the configured native
/// denomination and the marketplace's reported balance covers it.
/// `contract_balance` is the marketplace account's balance in the configured
/// denomination, as the native ledger reports it.
pub fn check_contract_balance_ok(config: &Config, contract_balance: &Coin, required: &Coin) -> (r:
    Result<(), ContractError>)
    ensures
        r == if required@.denom == config@.denom && contract_balance.amount >= required.amount {
            Result::<(), ContractError>::Ok(())
        } else {
            Result::<(), ContractError>::Err(ContractError::InsufficientBalance)
        },
{
    if !(required.denom == config.denom) {
        return Err(ContractError::InsufficientBalance);
    }
    if contract_balance.amount < required.amount {
        return Err(ContractError::InsufficientBalance);
    }
    Ok(())
}

/// The amount of the first attached coin under `denom`, or `None` when no
/// attached coin carries that denomination.
pub fn first_matching_amount(sent: &Vec<Coin>, denom: &String) -> (r: Option<u128>)
    ensures
        r == spec_first_amount(coin_views(sent@), denom@),
{
    let mut i: usize = 0;
    proof {
        assert(coin_views(sent@).skip(0) =~= coin_views(sent@));
    }
    while i < sent.len()
        invariant
            i <= sent.len(),
            forall|j: int| 0 <= j < i ==> coin_views(sent@)[j].denom != denom@,
            spec_first_amount(coin_views(sent@), denom@) == spec_first_amount(
                coin_views(sent@).skip(i as int),
                denom@,
            ),
        decreases sent.len() - i,
    {
        if sent[i].denom == *denom {
            proof {
                assert(coin_views(sent@).skip(i as int)[0] == coin_views(sent@)[i as int]);
            }
            return Some(sent[i].amount);
        }
        proof {
            let cv = coin_views(sent@);
            assert(cv.skip(i as int)[0] == cv[i as int]);
            assert(cv.skip(i as int).skip(1) =~= cv.skip(i as int + 1));
        }
        i += 1;
    }
    proof {
        assert(coin_views(sent@).skip(sent@.len() as int).len() == 0);
    }
    None
}

} // verus!
