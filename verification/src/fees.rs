//! The fee split: how a swap's price is divided between the marketplace
//! operator and the seller, as a whole-number percentage rounded down.

use vstd::prelude::*;
use vstd::arithmetic::div_mod::{lemma_fundamental_div_mod, lemma_fundamental_div_mod_converse};
use vstd::arithmetic::mul::lemma_mul_inequality;
use crate::error::ContractError;
use crate::state::Config;

verus! {

/// How a price is divided: the marketplace's share and the seller's share.
#[derive(Clone, Copy, Debug, PartialEq, Eq, Structural)]
pub struct FeeSplit {
    pub marketplace: u128,
    pub seller: u128,
}

impl FeeSplit {
    /// The split in which the seller keeps the whole amount.
    pub fn only_seller(amount: u128) -> (r: FeeSplit)
        ensures
            r == (FeeSplit { marketplace: 0u128, seller: amount }),
    {
        FeeSplit { marketplace: 0, seller: amount }
    }
}

/// The marketplace's share of `amount` at `percent` percent, rounded down.
pub open spec fn spec_fee_amount(amount: u128, percent: u64) -> int {
    (amount as int * percent as int) / 100
}

/// The share never exceeds the amount while the percentage is at most 100.
pub proof fn lemma_fee_amount_bounds(amount: u128, percent: u64)
    requires
        percent <= 100,
    ensures
        0 <= spec_fee_amount(amount, percent) <= amount,
{
    let a = amount as int;
    let p = percent as int;
    assert(0 <= a * p) by (nonlinear_arith)
        requires
            a >= 0 && p >= 0,
    ;
    assert(a * p <= a * 100) by {
        lemma_mul_inequality(p, 100, a);
        assert(p * a <= 100 * a) by (nonlinear_arith)
            requires
                p * a <= 100 * a,
        ;
        assert(a * p == p * a) by (nonlinear_arith);
        assert(a * 100 == 100 * a) by (nonlinear_arith);
    }
    assert(a * 100 / 100 == a);
    assert(a * p / 100 <= a * 100 / 100) by {
        vstd::arithmetic::div_mod::lemma_div_is_ordered(a * p, a * 100, 100);
    }
    assert(a * p / 100 >= 0) by {
        vstd::arithmetic::div_mod::lemma_div_pos_is_pos(a * p, 100);
    }
}

/// Computes `floor(amount * share_percent / 100)` without leaving 128 bits,
/// by splitting the amount at its last two decimal digits.
pub fn fee_percentage(amount: u128, share_percent: u64) -> (r: u128)
    requires
        share_percent <= 100,
    ensures
        r == spec_fee_amount(amount, share_percent),
{
    let q: u128 = amount / 100;
    let rem: u128 = amount % 100;
    let p: u128 = share_percent as u128;
    proof {
        let a = amount as int;
        let qi = q as int;
        let ri = rem as int;
        let pi = p as int;
        lemma_fundamental_div_mod(a, 100);
        // q * p stays within the amount, so within 128 bits
        assert(qi * pi <= qi * 100) by {
            lemma_mul_inequality(pi, 100, qi);
            assert(qi * pi == pi * qi) by (nonlinear_arith);
            assert(qi * 100 == 100 * qi) by (nonlinear_arith);
        }
        assert(ri * pi <= 100 * 100) by (nonlinear_arith)
            requires
                0 <= ri < 100 && 0 <= pi <= 100,
        ;
        assert(0 <= qi * pi) by (nonlinear_arith)
            requires
                qi >= 0 && pi >= 0,
        ;
        assert(0 <= ri * pi) by (nonlinear_arith)
            requires
                ri >= 0 && pi >= 0,
        ;
        // the final sum equals the mathematical quotient
        lemma_fundamental_div_mod(ri * pi, 100);
        let low_q = (ri * pi) / 100;
        let low_r = (ri * pi) % 100;
        assert(a * pi == (qi * pi + low_q) * 100 + low_r) by (nonlinear_arith)
            requires
                a == 100 * qi + ri && ri * pi == 100 * low_q + low_r,
        ;
        lemma_fundamental_div_mod_converse(a * pi, 100, qi * pi + low_q, low_r);
        // the quotient fits: it is at most the amount itself
        assert(low_q <= ri) by {
            assert(ri * pi <= ri * 100) by (nonlinear_arith)
                requires
                    0 <= ri && pi <= 100,
            ;
            assert(ri * 100 / 100 == ri);
            vstd::arithmetic::div_mod::lemma_div_is_ordered(ri * pi, ri * 100, 100);
        }
        assert(qi * pi + low_q <= a);
    }
    q * p + (rem * p) / 100
}

/// Splits `swap_price` according to the configured fee percentage. A split
/// whose marketplace share would reach the whole price is rejected as
/// `InvalidInput`; callers fall back to giving the seller everything.
pub open spec fn spec_fee_split(fees: u64, swap_price: u128) -> Result<FeeSplit, ContractError> {
    let marketplace = spec_fee_amount(swap_price, fees);
    if marketplace >= swap_price {
        Err(ContractError::InvalidInput)
    } else {
        Ok(
            FeeSplit {
                marketplace: marketplace as u128,
                seller: (swap_price - marketplace) as u128,
            },
        )
    }
}

/// The split a finished swap actually uses: the configured split, or the
/// seller-keeps-everything fallback where that split was rejected.
pub open spec fn spec_effective_split(fees: u64, swap_price: u128) -> FeeSplit {
    match spec_fee_split(fees, swap_price) {
        Ok(split) => split,
        Err(_) => FeeSplit { marketplace: 0u128, seller: swap_price },
    }
}

/// Splits `swap_price` between the marketplace and the seller according to
/// the configured fee percentage.
pub fn fee_split(config: &Config, swap_price: u128) -> (r: Result<FeeSplit, ContractError>)
    requires
        config.fees <= 100,
    ensures
        r == spec_fee_split(config.fees, swap_price),
{
    proof {
        lemma_fee_amount_bounds(swap_price, config.fees);
    }
    let marketplace: u128 = fee_percentage(swap_price, config.fees);
    if marketplace >= swap_price {
        return Err(ContractError::InvalidInput);
    }
    let seller: u128 = swap_price - marketplace;
    Ok(FeeSplit { marketplace, seller })
}

/// For every price and every percentage up to 100, the two shares of the
/// effective split add back up to the price, and the marketplace's share
/// never exceeds the price.
pub proof fn lemma_fee_split_conserves(fees: u64, swap_price: u128)
    requires
        fees <= 100,
    ensures
        spec_effective_split(fees, swap_price).marketplace + spec_effective_split(
            fees,
            swap_price,
        ).seller == swap_price,
        spec_effective_split(fees, swap_price).marketplace <= swap_price,
{
    lemma_fee_amount_bounds(swap_price, fees);
}

} // verus!
