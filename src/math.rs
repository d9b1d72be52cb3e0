//! Weighted-pool pricing in fixed point: spot price, the output for a given
//! input, and the input for a given output.
use crate::error::Error;
use crate::fixed::{
    agrees, badd, badd_spec, bdiv, bdiv_spec, bdiv_up, bdiv_up_spec, bmul, bmul_down,
    bmul_down_spec, bmul_spec, bmul_up, bmul_up_spec, bone, bone_value, bpow, bpow_spec, bpowi_spec,
    bsub, bsub_spec,
};
use crate::uint::Uint256;
use vstd::prelude::*;

verus! {

/// `(balance_in / weight_in) / (balance_out / weight_out) / (1 - fee)`.
pub open spec fn spot_price_spec(
    balance_in: nat,
    weight_in: nat,
    balance_out: nat,
    weight_out: nat,
    fee: nat,
) -> Option<nat> {
    match (bdiv_spec(balance_in, weight_in), bdiv_spec(balance_out, weight_out)) {
        (Some(numer), Some(denom)) => match (bdiv_spec(numer, denom), bsub_spec(bone(), fee)) {
            (Some(ratio), Some(keep)) => match bdiv_spec(bone(), keep) {
                Some(scale) => bmul_spec(ratio, scale),
                None => None,
            },
            _ => None,
        },
        _ => None,
    }
}

/// `balance_out * (1 - (balance_in / (balance_in + (1 - fee) * amount_in))^(weight_in / weight_out))`,
/// rounded in the pool's favour: the fee-adjusted input and the result
/// down, the ratio `y` up.
pub open spec fn out_given_in_spec(
    balance_in: nat,
    weight_in: nat,
    balance_out: nat,
    weight_out: nat,
    amount_in: nat,
    fee: nat,
) -> Option<nat> {
    match (bdiv_spec(weight_in, weight_out), bsub_spec(bone(), fee)) {
        (Some(weight_ratio), Some(keep)) => match bmul_down_spec(amount_in, keep) {
            Some(adjusted_in) => match badd_spec(balance_in, adjusted_in) {
                Some(grown) => match bdiv_up_spec(balance_in, grown) {
                    Some(y) => match bpow_spec(y, weight_ratio) {
                        Some(foo) => match bsub_spec(bone(), foo) {
                            Some(bar) => bmul_down_spec(balance_out, bar),
                            None => None,
                        },
                        None => None,
                    },
                    None => None,
                },
                None => None,
            },
            None => None,
        },
        _ => None,
    }
}

/// `balance_in * ((balance_out / (balance_out - amount_out))^(weight_out / weight_in) - 1) / (1 - fee)`,
/// rounded in the pool's favour: the ratio `y`, the product and the
/// quotient up.
pub open spec fn in_given_out_spec(
    balance_in: nat,
    weight_in: nat,
    balance_out: nat,
    weight_out: nat,
    amount_out: nat,
    fee: nat,
) -> Option<nat> {
    match (bdiv_spec(weight_out, weight_in), bsub_spec(balance_out, amount_out)) {
        (Some(weight_ratio), Some(left)) => match bdiv_up_spec(balance_out, left) {
            Some(y) => match bpow_spec(y, weight_ratio) {
                Some(foo) => match bsub_spec(foo, bone()) {
                    Some(growth) => match (bmul_up_spec(balance_in, growth), bsub_spec(bone(), fee)) {
                        (Some(raw), Some(keep)) => bdiv_up_spec(raw, keep),
                        _ => None,
                    },
                    None => None,
                },
                None => None,
            },
            None => None,
        },
        _ => None,
    }
}

/// Raising to the fixed-point power one leaves a base in range unchanged.
proof fn lemma_power_one(y: nat)
    requires
        0 < y < 2 * bone(),
    ensures
        bpow_spec(y, bone()) == Some(y),
{
    let b = bone() as int;
    vstd::arithmetic::div_mod::lemma_fundamental_div_mod_converse(b * y + b / 2, b, y as int, b / 2);
    assert(b * y == y * b) by (nonlinear_arith);
    assert(bone() % bone() == 0 && bone() / bone() == 1);
    reveal_with_fuel(bpowi_spec, 2);
    assert(bpowi_spec(y, 0) == Some(bone()));
    assert(bmul_spec(bone(), y) == Some(y));
}

/// With equal weights, a swap pays out no more than the constant-product
/// quote `balance_out * adjusted / (balance_in + adjusted)`, where `adjusted`
/// is the input less the fee, rounded down: rounding never favours the trader.
pub proof fn lemma_equal_weights_within_quote(
    balance_in: nat,
    weight: nat,
    balance_out: nat,
    amount_in: nat,
    fee: nat,
)
    requires
        out_given_in_spec(balance_in, weight, balance_out, weight, amount_in, fee) is Some,
    ensures
        ({
            let adjusted = amount_in * (bone() - fee) as nat / bone();
            let out = out_given_in_spec(balance_in, weight, balance_out, weight, amount_in, fee)->Some_0;
            out <= balance_out * adjusted / (balance_in + adjusted)
        }),
{
    let b = bone() as int;
    let w = weight as int;
    assert(w > 0);
    vstd::arithmetic::div_mod::lemma_fundamental_div_mod_converse(w * b + w / 2, w, b, w / 2);
    assert(w * b == b * w) by (nonlinear_arith);
    assert(bdiv_spec(weight, weight) == Some(bone()));
    let keep = (bone() - fee) as nat;
    let adjusted = amount_in * keep / bone();
    assert(bmul_down_spec(amount_in, keep) == Some(adjusted));
    let g = (balance_in + adjusted) as int;
    assert(g > 0);
    let y = ((balance_in * bone() + (g - 1) as nat) / g as nat) as int;
    assert(bdiv_up_spec(balance_in, (balance_in + adjusted) as nat) == Some(y as nat));
    lemma_power_one(y as nat);
    let bar = b - y;
    let bi = balance_in as int;
    let bo = balance_out as int;
    let out = out_given_in_spec(balance_in, weight, balance_out, weight, amount_in, fee)->Some_0 as int;
    assert(out == (bo * bar) / b);
    vstd::arithmetic::div_mod::lemma_fundamental_div_mod(bi * b + g - 1, g);
    vstd::arithmetic::div_mod::lemma_fundamental_div_mod(bo * bar, b);
    assert(y * g >= bi * b) by (nonlinear_arith)
        requires
            bi * b + g - 1 == g * y + (bi * b + g - 1) % g,
            (bi * b + g - 1) % g < g,
    ;
    assert(out * b <= bo * bar) by (nonlinear_arith)
        requires
            bo * bar == b * out + (bo * bar) % b,
            (bo * bar) % b >= 0,
    ;
    let adj = adjusted as int;
    assert(out * g <= bo * adj) by (nonlinear_arith)
        requires
            out * b <= bo * bar,
            bar == b - y,
            y * g >= bi * b,
            g == bi + adj,
            b > 0,
            g > 0,
            bo >= 0,
            bar >= 0,
    ;
    vstd::arithmetic::div_mod::lemma_div_is_ordered(out * g, bo * adj, g);
    vstd::arithmetic::div_mod::lemma_div_multiples_vanish(out, g);
    assert(out * g == g * out) by (nonlinear_arith);
}

/// The marginal price of the output token in units of the input token.
pub fn calc_spot_price(
    token_balance_in: Uint256,
    token_weight_in: Uint256,
    token_balance_out: Uint256,
    token_weight_out: Uint256,
    swap_fee: Uint256,
) -> (r: Result<Uint256, Error>)
    ensures
        agrees(
            r,
            spot_price_spec(
                token_balance_in.value(),
                token_weight_in.value(),
                token_balance_out.value(),
                token_weight_out.value(),
                swap_fee.value(),
            ),
        ),
{
    let numer = match bdiv(&token_balance_in, &token_weight_in) {
        Ok(v) => v,
        Err(e) => return Err(e),
    };
    let denom = match bdiv(&token_balance_out, &token_weight_out) {
        Ok(v) => v,
        Err(e) => return Err(e),
    };
    let ratio = match bdiv(&numer, &denom) {
        Ok(v) => v,
        Err(e) => return Err(e),
    };
    let keep = match bsub(&bone_value(), &swap_fee) {
        Ok(v) => v,
        Err(e) => return Err(e),
    };
    let scale = match bdiv(&bone_value(), &keep) {
        Ok(v) => v,
        Err(e) => return Err(e),
    };
    bmul(&ratio, &scale)
}

/// The amount of the output token that `token_amount_in` of the input token buys.
pub fn calc_out_given_in(
    token_balance_in: Uint256,
    token_weight_in: Uint256,
    token_balance_out: Uint256,
    token_weight_out: Uint256,
    token_amount_in: Uint256,
    swap_fee: Uint256,
) -> (r: Result<Uint256, Error>)
    ensures
        agrees(
            r,
            out_given_in_spec(
                token_balance_in.value(),
                token_weight_in.value(),
                token_balance_out.value(),
                token_weight_out.value(),
                token_amount_in.value(),
                swap_fee.value(),
            ),
        ),
{
    let weight_ratio = match bdiv(&token_weight_in, &token_weight_out) {
        Ok(v) => v,
        Err(e) => return Err(e),
    };
    let keep = match bsub(&bone_value(), &swap_fee) {
        Ok(v) => v,
        Err(e) => return Err(e),
    };
    let adjusted_in = match bmul_down(&token_amount_in, &keep) {
        Ok(v) => v,
        Err(e) => return Err(e),
    };
    let grown = match badd(&token_balance_in, &adjusted_in) {
        Ok(v) => v,
        Err(e) => return Err(e),
    };
    let y = match bdiv_up(&token_balance_in, &grown) {
        Ok(v) => v,
        Err(e) => return Err(e),
    };
    let foo = match bpow(&y, &weight_ratio) {
        Ok(v) => v,
        Err(e) => return Err(e),
    };
    let bar = match bsub(&bone_value(), &foo) {
        Ok(v) => v,
        Err(e) => return Err(e),
    };
    bmul_down(&token_balance_out, &bar)
}

/// The amount of the input token needed to buy `token_amount_out` of the output token.
pub fn calc_in_given_out(
    token_balance_in: Uint256,
    token_weight_in: Uint256,
    token_balance_out: Uint256,
    token_weight_out: Uint256,
    token_amount_out: Uint256,
    swap_fee: Uint256,
) -> (r: Result<Uint256, Error>)
    ensures
        agrees(
            r,
            in_given_out_spec(
                token_balance_in.value(),
                token_weight_in.value(),
                token_balance_out.value(),
                token_weight_out.value(),
                token_amount_out.value(),
                swap_fee.value(),
            ),
        ),
{
    let weight_ratio = match bdiv(&token_weight_out, &token_weight_in) {
        Ok(v) => v,
        Err(e) => return Err(e),
    };
    let left = match bsub(&token_balance_out, &token_amount_out) {
        Ok(v) => v,
        Err(e) => return Err(e),
    };
    let y = match bdiv_up(&token_balance_out, &left) {
        Ok(v) => v,
        Err(e) => return Err(e),
    };
    let foo = match bpow(&y, &weight_ratio) {
        Ok(v) => v,
        Err(e) => return Err(e),
    };
    let growth = match bsub(&foo, &bone_value()) {
        Ok(v) => v,
        Err(e) => return Err(e),
    };
    let raw = match bmul_up(&token_balance_in, &growth) {
        Ok(v) => v,
        Err(e) => return Err(e),
    };
    let keep = match bsub(&bone_value(), &swap_fee) {
        Ok(v) => v,
        Err(e) => return Err(e),
    };
    bdiv_up(&raw, &keep)
}

} // verus!
