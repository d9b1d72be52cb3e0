//! How many LP units a deposit mints and how much a withdrawal pays out.
use crate::error::Error;
use crate::uint::{modulus, Uint256};
use vstd::arithmetic::div_mod::{lemma_div_is_ordered_by_denominator, lemma_fundamental_div_mod};
use vstd::prelude::*;

verus! {

/// LP units locked away on the first deposit of a pool.
pub const MINIMUM_LIQUIDITY: u64 = 1_000;

/// `r` is the integer square root of `y`.
pub open spec fn is_isqrt(r: nat, y: nat) -> bool {
    r * r <= y && y < (r + 1) * (r + 1)
}

/// One Babylonian step from any positive guess lands at or above the root.
proof fn lemma_step_above_root(y: int, x: int)
    requires
        y >= 0,
        x >= 1,
    ensures
        ((y / x + x) / 2 + 1) * ((y / x + x) / 2 + 1) > y,
{
    let q = y / x;
    lemma_fundamental_div_mod(y, x);
    assert(y < (q + 1) * x) by (nonlinear_arith)
        requires
            y == x * q + y % x,
            y % x < x,
    ;
    let r = (q + x) / 2;
    let s = q + 1;
    assert(2 * (r + 1) >= s + x);
    assert((s + x) * (s + x) >= 4 * s * x) by (nonlinear_arith);
    assert((2 * (r + 1)) * (2 * (r + 1)) >= (s + x) * (s + x)) by (nonlinear_arith)
        requires
            2 * (r + 1) >= s + x,
            s + x >= 0,
    ;
    assert(4 * s * x > 4 * y) by (nonlinear_arith)
        requires
            y < s * x,
    ;
    assert((2 * (r + 1)) * (2 * (r + 1)) == 4 * ((r + 1) * (r + 1))) by (nonlinear_arith);
}

/// The first guess `y / 2 + 1` is at or above the root.
proof fn lemma_first_guess_above_root(y: int)
    requires
        y >= 0,
    ensures
        (y / 2 + 2) * (y / 2 + 2) > y,
{
    assert((y / 2 + 2) * (y / 2 + 2) >= 2 * (y / 2 + 2)) by (nonlinear_arith)
        requires
            y / 2 + 2 >= 2,
    ;
}

/// A guess in `[2, y / 2 + 1]` keeps `y / x + x` in range and the next
/// guess in the same interval.
proof fn lemma_step_in_range(y: int, x: int)
    requires
        y >= 4,
        2 <= x <= y / 2 + 1,
    ensures
        y / x + x <= 2 * (y / 2) + 1,
        (y / x + x) / 2 <= y / 2,
{
    lemma_div_is_ordered_by_denominator(y, 2, x);
}

/// The integer square root, by the Babylonian method: starting from
/// `y / 2 + 1`, replace `x` by `(y / x + x) / 2` while that decreases.
pub fn sqrt(y: &Uint256) -> (r: Uint256)
    ensures
        is_isqrt(r.value(), y.value()),
{
    let three = Uint256::from_u64(3);
    if three.lt(y) {
        let two = Uint256::from_u64(2);
        let ghost yv = y.value() as int;
        proof {
            y.lemma_value_bound();
            lemma_first_guess_above_root(yv);
        }
        let mut z = *y;
        let (mut x, _) = y.div(&two).overflowing_add(&Uint256::from_u64(1));
        proof {
            assert((z.value() + 1) * (z.value() + 1) > yv) by (nonlinear_arith)
                requires
                    z.value() == yv,
                    yv >= 0,
            ;
        }
        while x.lt(&z)
            invariant
                yv == y.value(),
                two.value() == 2,
                yv >= 4,
                yv < modulus(),
                2 <= x.value() <= yv / 2 + 1,
                (x.value() + 1) * (x.value() + 1) > yv,
                (z.value() + 1) * (z.value() + 1) > yv,
                z.value() == yv || x.value() == (yv / z.value() as int + z.value()) / 2,
                z.value() >= 1,
            decreases z.value(),
        {
            z = x;
            proof {
                lemma_step_in_range(yv, x.value() as int);
                lemma_step_above_root(yv, x.value() as int);
                assert(modulus() % 2 == 0);
            }
            let (s, _) = y.div(&x).overflowing_add(&x);
            x = s.div(&two);
            proof {
                let nx = x.value() as int;
                if nx < 2 {
                    assert((nx + 1) * (nx + 1) <= 4) by (nonlinear_arith)
                        requires
                            0 <= nx < 2,
                    ;
                }
            }
        }
        proof {
            let zv = z.value() as int;
            assert(zv != yv) by {
                if zv == yv {
                    assert(x.value() >= zv);
                }
            }
            lemma_fundamental_div_mod(yv, zv);
            assert(yv / zv >= zv);
            assert(zv * zv <= yv) by (nonlinear_arith)
                requires
                    yv == zv * (yv / zv) + yv % zv,
                    yv % zv >= 0,
                    yv / zv >= zv,
                    zv >= 1,
            ;
            assert(is_isqrt(z.value(), y.value()));
        }
        z
    } else if !y.is_zero() {
        let one = Uint256::from_u64(1);
        assert(1 <= y.value() <= 3);
        assert(is_isqrt(one.value(), y.value())) by (nonlinear_arith)
            requires
                one.value() == 1,
                1 <= y.value() <= 3,
        ;
        one
    } else {
        let zero = Uint256::zero();
        assert(is_isqrt(zero.value(), y.value())) by (nonlinear_arith)
            requires
                zero.value() == 0,
                y.value() == 0,
        ;
        zero
    }
}

/// Whether the integer square root of `y` is at least `t`.
proof fn lemma_isqrt_threshold(r: nat, y: nat, t: nat)
    requires
        is_isqrt(r, y),
    ensures
        (r >= t) == (y >= t * t),
{
    if r >= t {
        assert(r * r >= t * t) by (nonlinear_arith)
            requires
                r >= t,
        ;
    } else {
        assert((r + 1) * (r + 1) <= t * t) by (nonlinear_arith)
            requires
                r + 1 <= t,
        ;
    }
}

/// The LP units of the first deposit: the integer square root of
/// `amount0 * amount1`, less the locked minimum.
pub open spec fn bootstrap_result(amount0: nat, amount1: nat) -> Result<nat, Error> {
    let p = amount0 * amount1;
    if p >= modulus() {
        Err(Error::Overflow)
    } else if p < MINIMUM_LIQUIDITY * MINIMUM_LIQUIDITY {
        Err(Error::Underflow)
    } else if p < (MINIMUM_LIQUIDITY + 1) * (MINIMUM_LIQUIDITY + 1) {
        Err(Error::ZeroLiquidity)
    } else {
        Ok((isqrt(p) - MINIMUM_LIQUIDITY) as nat)
    }
}

/// The integer square root.
pub open spec fn isqrt(y: nat) -> nat {
    choose|r: nat| is_isqrt(r, y)
}

/// Every number has an integer square root.
pub proof fn sqrt_exists(y: nat) -> (r: nat)
    ensures
        is_isqrt(r, y),
        is_isqrt(isqrt(y), y),
    decreases y,
{
    if y == 0 {
        assert(is_isqrt(0, 0)) by (nonlinear_arith);
        0
    } else {
        let s = sqrt_exists((y - 1) as nat);
        if (s + 1) * (s + 1) <= y {
            assert((s + 1) * (s + 1) == y) by (nonlinear_arith)
                requires
                    (s + 1) * (s + 1) <= y,
                    y - 1 < (s + 1) * (s + 1),
            ;
            assert(y < (s + 2) * (s + 2)) by (nonlinear_arith)
                requires
                    (s + 1) * (s + 1) == y,
            ;
            assert(is_isqrt(s + 1, y));
            s + 1
        } else {
            assert(is_isqrt(s, y));
            s
        }
    }
}

/// Two integer roots of one number are equal.
proof fn lemma_isqrt_unique(r: nat, s: nat, y: nat)
    requires
        is_isqrt(r, y),
        is_isqrt(s, y),
    ensures
        r == s,
{
    if r < s {
        assert((r + 1) * (r + 1) <= s * s) by (nonlinear_arith)
            requires
                r + 1 <= s,
        ;
    } else if s < r {
        assert((s + 1) * (s + 1) <= r * r) by (nonlinear_arith)
            requires
                s + 1 <= r,
        ;
    }
}

pub fn bootstrap_liquidity(amount0: &Uint256, amount1: &Uint256) -> (r: Result<Uint256, Error>)
    ensures
        match r {
            Ok(v) => bootstrap_result(amount0.value(), amount1.value()) == Ok::<nat, Error>(v.value()),
            Err(e) => bootstrap_result(amount0.value(), amount1.value()) == Err::<nat, Error>(e),
        },
{
    let p = match amount0.checked_mul(amount1) {
        Some(p) => p,
        None => return Err(Error::Overflow),
    };
    let root = sqrt(&p);
    proof {
        sqrt_exists(p.value());
        lemma_isqrt_unique(root.value(), isqrt(p.value()), p.value());
        lemma_isqrt_threshold(root.value(), p.value(), MINIMUM_LIQUIDITY as nat);
        lemma_isqrt_threshold(root.value(), p.value(), (MINIMUM_LIQUIDITY + 1) as nat);
    }
    let liquidity = match root.checked_sub(&Uint256::from_u64(MINIMUM_LIQUIDITY)) {
        Some(l) => l,
        None => return Err(Error::Underflow),
    };
    if liquidity.is_zero() {
        return Err(Error::ZeroLiquidity);
    }
    Ok(liquidity)
}

pub open spec fn min_nat(a: nat, b: nat) -> nat {
    if a < b {
        a
    } else {
        b
    }
}

/// The LP units of a deposit into a pool with LP units outstanding: the
/// smaller of the two shares it adds.
pub open spec fn proportional_result(
    amount0: nat,
    amount1: nat,
    supply: nat,
    reserve0: nat,
    reserve1: nat,
) -> Result<nat, Error> {
    if amount0 * supply >= modulus() || amount1 * supply >= modulus() {
        Err(Error::Overflow)
    } else if reserve0 == 0 || reserve1 == 0 {
        Err(Error::Math)
    } else if min_nat(amount0 * supply / reserve0, amount1 * supply / reserve1) == 0 {
        Err(Error::ZeroLiquidity)
    } else {
        Ok(min_nat(amount0 * supply / reserve0, amount1 * supply / reserve1))
    }
}

pub fn proportional_liquidity(
    amount0: &Uint256,
    amount1: &Uint256,
    supply: &Uint256,
    reserve0: &Uint256,
    reserve1: &Uint256,
) -> (r: Result<Uint256, Error>)
    ensures
        match r {
            Ok(v) => proportional_result(
                amount0.value(),
                amount1.value(),
                supply.value(),
                reserve0.value(),
                reserve1.value(),
            ) == Ok::<nat, Error>(v.value()),
            Err(e) => proportional_result(
                amount0.value(),
                amount1.value(),
                supply.value(),
                reserve0.value(),
                reserve1.value(),
            ) == Err::<nat, Error>(e),
        },
{
    let prod0 = match amount0.checked_mul(supply) {
        Some(p) => p,
        None => return Err(Error::Overflow),
    };
    let prod1 = match amount1.checked_mul(supply) {
        Some(p) => p,
        None => return Err(Error::Overflow),
    };
    let s0 = match prod0.checked_div(reserve0) {
        Some(s) => s,
        None => return Err(Error::Math),
    };
    let s1 = match prod1.checked_div(reserve1) {
        Some(s) => s,
        None => return Err(Error::Math),
    };
    let liquidity = s0.min(&s1);
    if liquidity.is_zero() {
        return Err(Error::ZeroLiquidity);
    }
    Ok(liquidity)
}

/// Doubling `a` doubles `a * s / r`, give or take one unit.
proof fn lemma_double_share(a: nat, s: nat, r: nat)
    requires
        r > 0,
    ensures
        2 * (a * s / r) <= (2 * a) * s / r <= 2 * (a * s / r) + 1,
{
    let q = a * s / r;
    lemma_fundamental_div_mod((a * s) as int, r as int);
    lemma_fundamental_div_mod(((2 * a) * s) as int, r as int);
    assert((2 * a) * s == 2 * (a * s)) by (nonlinear_arith);
    let q2 = (2 * a) * s / r;
    assert(2 * q <= q2 <= 2 * q + 1) by (nonlinear_arith)
        requires
            a * s == r * q + (a * s) % r,
            0 <= (a * s) % r < r,
            2 * (a * s) == r * q2 + (2 * (a * s)) % r,
            0 <= (2 * (a * s)) % r < r,
            r > 0,
    ;
}

/// Doubling both amounts of a deposit into a pool with LP units outstanding
/// doubles the LP units it mints, up to one unit lost to rounding down.
pub proof fn lemma_mint_doubles(amount0: nat, amount1: nat, supply: nat, reserve0: nat, reserve1: nat)
    requires
        reserve0 > 0,
        reserve1 > 0,
    ensures
        2 * min_nat(amount0 * supply / reserve0, amount1 * supply / reserve1) <= min_nat(
            (2 * amount0) * supply / reserve0,
            (2 * amount1) * supply / reserve1,
        ) <= 2 * min_nat(amount0 * supply / reserve0, amount1 * supply / reserve1) + 1,
{
    lemma_double_share(amount0, supply, reserve0);
    lemma_double_share(amount1, supply, reserve1);
}

} // verus!
