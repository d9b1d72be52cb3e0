//! The decisions of the weighted pool's swaps: the amounts from the pricing
//! curve and the ordered checks against the caller's limits, the pool's
//! ratio caps and the oracle's price bound.
use crate::error::Error;
use crate::fixed::{badd_spec, bdiv, bdiv_spec, bmul, bmul_spec, bone, bsub_spec};
use crate::math::{
    calc_in_given_out, calc_out_given_in, calc_spot_price, in_given_out_spec, out_given_in_spec,
    spot_price_spec,
};
use crate::uint::Uint256;
use vstd::prelude::*;

verus! {

/// At most half of the input balance may come in by one swap.
pub open spec fn max_in_ratio() -> nat {
    bone() / 2
}

/// At most a third of the output balance (and one unit) may go out by one swap.
pub open spec fn max_out_ratio() -> nat {
    bone() / 3 + 1
}

/// The checks that follow the amounts of a weighted swap: the spot price
/// after the swap, on the balances moved by `amount_in` and `amount_out`,
/// must not be below `before` nor above `max_price`, and `before` not above
/// the swap's own price `amount_in / amount_out`.
pub open spec fn price_checks(
    balance_in: nat,
    weight_in: nat,
    balance_out: nat,
    weight_out: nat,
    fee: nat,
    amount_in: nat,
    amount_out: nat,
    before: nat,
    max_price: nat,
) -> Result<nat, Error> {
    match (badd_spec(balance_in, amount_in), bsub_spec(balance_out, amount_out)) {
        (Some(new_in), Some(new_out)) => match spot_price_spec(new_in, weight_in, new_out, weight_out, fee) {
            Some(after) => if after < before {
                Err(Error::SpotPriceAfterBelowSpotPriceBefore)
            } else if after > max_price {
                Err(Error::SpotPriceAboveMaxPrice)
            } else {
                match bdiv_spec(amount_in, amount_out) {
                    Some(paid) => if before > paid {
                        Err(Error::SpotPriceBeforeAboveTokenRatio)
                    } else {
                        Ok(after)
                    },
                    None => Err(Error::Math),
                }
            },
            None => Err(Error::Math),
        },
        _ => Err(Error::Math),
    }
}

/// The outcome of a swap of exactly `amount_in`: the amount out and the spot
/// price after, or the first check that fails.
pub open spec fn swap_in_result(
    balance_in: nat,
    weight_in: nat,
    balance_out: nat,
    weight_out: nat,
    fee: nat,
    amount_in: nat,
    min_amount_out: nat,
    max_price: Result<Uint256, Error>,
) -> Result<(nat, nat), Error> {
    match bmul_spec(balance_in, max_in_ratio()) {
        None => Err(Error::Math),
        Some(cap) => if amount_in > cap {
            Err(Error::TokenAmountInAboveMaxRatio)
        } else {
            match max_price {
                Err(e) => Err(e),
                Ok(max_price) => match spot_price_spec(balance_in, weight_in, balance_out, weight_out, fee) {
                    None => Err(Error::Math),
                    Some(before) => if before > max_price.value() {
                        Err(Error::SpotPriceAboveMaxPrice)
                    } else {
                        match out_given_in_spec(balance_in, weight_in, balance_out, weight_out, amount_in, fee) {
                            None => Err(Error::Math),
                            Some(out) => if out < min_amount_out {
                                Err(Error::TokenAmountOutBelowMinOut)
                            } else {
                                match price_checks(balance_in, weight_in, balance_out, weight_out, fee, amount_in, out, before, max_price.value()) {
                                    Ok(after) => Ok((out, after)),
                                    Err(e) => Err(e),
                                }
                            },
                        }
                    },
                },
            }
        },
    }
}

/// The outcome of a swap for exactly `amount_out`: the amount in and the
/// spot price after, or the first check that fails.
pub open spec fn swap_out_result(
    balance_in: nat,
    weight_in: nat,
    balance_out: nat,
    weight_out: nat,
    fee: nat,
    max_amount_in: nat,
    amount_out: nat,
    max_price: Result<Uint256, Error>,
) -> Result<(nat, nat), Error> {
    match bmul_spec(balance_out, max_out_ratio()) {
        None => Err(Error::Math),
        Some(cap) => if amount_out > cap {
            Err(Error::TokenAmountOutAboveMaxRatio)
        } else {
            match max_price {
                Err(e) => Err(e),
                Ok(max_price) => match spot_price_spec(balance_in, weight_in, balance_out, weight_out, fee) {
                    None => Err(Error::Math),
                    Some(before) => if before > max_price.value() {
                        Err(Error::SpotPriceAboveMaxPrice)
                    } else {
                        match in_given_out_spec(balance_in, weight_in, balance_out, weight_out, amount_out, fee) {
                            None => Err(Error::Math),
                            Some(amount_in) => if amount_in > max_amount_in {
                                Err(Error::TokenAmountInAboveMaxAmountIn)
                            } else {
                                match price_checks(balance_in, weight_in, balance_out, weight_out, fee, amount_in, amount_out, before, max_price.value()) {
                                    Ok(after) => Ok((amount_in, after)),
                                    Err(e) => Err(e),
                                }
                            },
                        }
                    },
                },
            }
        },
    }
}

/// Whether `r` carries the same pair of numbers, or the same error, as `s`.
pub open spec fn agrees_pair(r: Result<(Uint256, Uint256), Error>, s: Result<(nat, nat), Error>) -> bool {
    match r {
        Ok((a, b)) => s == Ok::<(nat, nat), Error>((a.value(), b.value())),
        Err(e) => s == Err::<(nat, nat), Error>(e),
    }
}

fn check_prices(
    balance_in: &Uint256,
    weight_in: &Uint256,
    balance_out: &Uint256,
    weight_out: &Uint256,
    fee: &Uint256,
    amount_in: &Uint256,
    amount_out: &Uint256,
    before: &Uint256,
    max_price: &Uint256,
) -> (r: Result<Uint256, Error>)
    ensures
        match r {
            Ok(v) => price_checks(balance_in.value(), weight_in.value(), balance_out.value(), weight_out.value(), fee.value(), amount_in.value(), amount_out.value(), before.value(), max_price.value()) == Ok::<nat, Error>(v.value()),
            Err(e) => price_checks(balance_in.value(), weight_in.value(), balance_out.value(), weight_out.value(), fee.value(), amount_in.value(), amount_out.value(), before.value(), max_price.value()) == Err::<nat, Error>(e),
        },
{
    let (new_in, new_out) = match (balance_in.checked_add(amount_in), balance_out.checked_sub(amount_out)) {
        (Some(a), Some(b)) => (a, b),
        _ => return Err(Error::Math),
    };
    let after = match calc_spot_price(new_in, *weight_in, new_out, *weight_out, *fee) {
        Ok(p) => p,
        Err(e) => return Err(e),
    };
    if after.lt(before) {
        return Err(Error::SpotPriceAfterBelowSpotPriceBefore);
    }
    if max_price.lt(&after) {
        return Err(Error::SpotPriceAboveMaxPrice);
    }
    let paid = match bdiv(amount_in, amount_out) {
        Ok(p) => p,
        Err(e) => return Err(e),
    };
    if paid.lt(before) {
        return Err(Error::SpotPriceBeforeAboveTokenRatio);
    }
    Ok(after)
}

/// Decides a swap of exactly `token_amount_in`, given the balances and
/// weights of both tokens, the pool's fee and the outcome of the oracle read.
/// Returns the amount out and the spot price after the swap.
pub fn swap_in_given_balances(
    balance_in: Uint256,
    weight_in: Uint256,
    balance_out: Uint256,
    weight_out: Uint256,
    fee: Uint256,
    token_amount_in: Uint256,
    min_amount_out: Uint256,
    max_price: Result<Uint256, Error>,
) -> (r: Result<(Uint256, Uint256), Error>)
    ensures
        agrees_pair(r, swap_in_result(balance_in.value(), weight_in.value(), balance_out.value(), weight_out.value(), fee.value(), token_amount_in.value(), min_amount_out.value(), max_price)),
{
    let half = Uint256::from_u64(500_000_000_000_000_000);
    let cap = match bmul(&balance_in, &half) {
        Ok(c) => c,
        Err(e) => return Err(e),
    };
    if cap.lt(&token_amount_in) {
        return Err(Error::TokenAmountInAboveMaxRatio);
    }
    let max_price = match max_price {
        Ok(p) => p,
        Err(e) => return Err(e),
    };
    let before = match calc_spot_price(balance_in, weight_in, balance_out, weight_out, fee) {
        Ok(p) => p,
        Err(e) => return Err(e),
    };
    if max_price.lt(&before) {
        return Err(Error::SpotPriceAboveMaxPrice);
    }
    let out = match calc_out_given_in(balance_in, weight_in, balance_out, weight_out, token_amount_in, fee) {
        Ok(o) => o,
        Err(e) => return Err(e),
    };
    if out.lt(&min_amount_out) {
        return Err(Error::TokenAmountOutBelowMinOut);
    }
    match check_prices(&balance_in, &weight_in, &balance_out, &weight_out, &fee, &token_amount_in, &out, &before, &max_price) {
        Ok(after) => Ok((out, after)),
        Err(e) => Err(e),
    }
}

/// Decides a swap for exactly `token_amount_out`, given the balances and
/// weights of both tokens, the pool's fee and the outcome of the oracle read.
/// Returns the amount in and the spot price after the swap.
pub fn swap_out_given_balances(
    balance_in: Uint256,
    weight_in: Uint256,
    balance_out: Uint256,
    weight_out: Uint256,
    fee: Uint256,
    max_amount_in: Uint256,
    token_amount_out: Uint256,
    max_price: Result<Uint256, Error>,
) -> (r: Result<(Uint256, Uint256), Error>)
    ensures
        agrees_pair(r, swap_out_result(balance_in.value(), weight_in.value(), balance_out.value(), weight_out.value(), fee.value(), max_amount_in.value(), token_amount_out.value(), max_price)),
{
    let third = Uint256::from_u64(333_333_333_333_333_334);
    let cap = match bmul(&balance_out, &third) {
        Ok(c) => c,
        Err(e) => return Err(e),
    };
    if cap.lt(&token_amount_out) {
        return Err(Error::TokenAmountOutAboveMaxRatio);
    }
    let max_price = match max_price {
        Ok(p) => p,
        Err(e) => return Err(e),
    };
    let before = match calc_spot_price(balance_in, weight_in, balance_out, weight_out, fee) {
        Ok(p) => p,
        Err(e) => return Err(e),
    };
    if max_price.lt(&before) {
        return Err(Error::SpotPriceAboveMaxPrice);
    }
    let amount_in = match calc_in_given_out(balance_in, weight_in, balance_out, weight_out, token_amount_out, fee) {
        Ok(a) => a,
        Err(e) => return Err(e),
    };
    if max_amount_in.lt(&amount_in) {
        return Err(Error::TokenAmountInAboveMaxAmountIn);
    }
    match check_prices(&balance_in, &weight_in, &balance_out, &weight_out, &fee, &amount_in, &token_amount_out, &before, &max_price) {
        Ok(after) => Ok((amount_in, after)),
        Err(e) => Err(e),
    }
}

/// A weighted swap of exactly some input that succeeds moves the spot price
/// up or leaves it, and both prices are within the oracle's bound.
pub proof fn lemma_swap_in_price_bounds(
    balance_in: nat,
    weight_in: nat,
    balance_out: nat,
    weight_out: nat,
    fee: nat,
    amount_in: nat,
    min_amount_out: nat,
    max_price: Result<Uint256, Error>,
)
    requires
        swap_in_result(balance_in, weight_in, balance_out, weight_out, fee, amount_in, min_amount_out, max_price) is Ok,
    ensures
        ({
            let before = spot_price_spec(balance_in, weight_in, balance_out, weight_out, fee)->Some_0;
            let after = swap_in_result(balance_in, weight_in, balance_out, weight_out, fee, amount_in, min_amount_out, max_price)->Ok_0.1;
            &&& spot_price_spec(balance_in, weight_in, balance_out, weight_out, fee) is Some
            &&& max_price is Ok
            &&& before <= after
            &&& before <= max_price->Ok_0.value()
            &&& after <= max_price->Ok_0.value()
        }),
{
}

/// A weighted swap for exactly some output that succeeds moves the spot
/// price up or leaves it, and both prices are within the oracle's bound.
pub proof fn lemma_swap_out_price_bounds(
    balance_in: nat,
    weight_in: nat,
    balance_out: nat,
    weight_out: nat,
    fee: nat,
    max_amount_in: nat,
    amount_out: nat,
    max_price: Result<Uint256, Error>,
)
    requires
        swap_out_result(balance_in, weight_in, balance_out, weight_out, fee, max_amount_in, amount_out, max_price) is Ok,
    ensures
        ({
            let before = spot_price_spec(balance_in, weight_in, balance_out, weight_out, fee)->Some_0;
            let after = swap_out_result(balance_in, weight_in, balance_out, weight_out, fee, max_amount_in, amount_out, max_price)->Ok_0.1;
            &&& spot_price_spec(balance_in, weight_in, balance_out, weight_out, fee) is Some
            &&& max_price is Ok
            &&& before <= after
            &&& before <= max_price->Ok_0.value()
            &&& after <= max_price->Ok_0.value()
        }),
{
}

} // verus!
