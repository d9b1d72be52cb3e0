//! The pool's state: its tokens, the reserve ledger, the LP token and the
//! weighted records, with the operations that change them. Token balances,
//! transfers and oracle prices come from outside and are handed in as values.
use crate::address::Address;
use crate::error::Error;
use crate::liquidity::{
    bootstrap_liquidity, bootstrap_result, is_isqrt, isqrt, proportional_liquidity, proportional_result,
    MINIMUM_LIQUIDITY,
};
use crate::lp::LpToken;
use crate::uint::{modulus, Uint256};
use crate::fixed::{bmul, bmul_spec};
use crate::weighted::{
    max_in_ratio, max_out_ratio, agrees_pair, swap_in_given_balances, swap_in_result, swap_out_given_balances, swap_out_result,
};
use vstd::prelude::*;

verus! {

/// The registration of a token with the weighted pool.
#[derive(Clone, Copy, Debug, PartialEq, Eq, Structural)]
pub struct Record {
    pub bound: bool,
    pub denorm: Uint256,
}

/// The record of `token` in `s`: its entry nearest the end, if any.
pub open spec fn record_of(s: Seq<(Address, Record)>, token: Address) -> Option<Record>
    decreases s.len(),
{
    if s.len() == 0 {
        None
    } else if s.last().0 == token {
        Some(s.last().1)
    } else {
        record_of(s.drop_last(), token)
    }
}

/// Whether `token` is registered with the weighted pool.
pub open spec fn is_bound(s: Seq<(Address, Record)>, token: Address) -> bool {
    record_of(s, token) matches Some(rec) && rec.bound
}

/// The LP units that a deposit of `amount0` and `amount1` mints, given the
/// LP supply and the reserves.
pub open spec fn liquidity_result(
    amount0: nat,
    amount1: nat,
    supply: nat,
    reserve0: nat,
    reserve1: nat,
) -> Result<nat, Error> {
    if supply == 0 {
        bootstrap_result(amount0, amount1)
    } else {
        proportional_result(amount0, amount1, supply, reserve0, reserve1)
    }
}

/// What a withdrawal of `liquidity` LP units out of `supply` pays in a token
/// of which the pool holds `balance`.
pub open spec fn payout(liquidity: nat, balance: nat, supply: nat) -> nat {
    liquidity * balance / supply
}

/// The outcome of a withdrawal: both payouts, or why there are none.
pub open spec fn withdrawal_result(liquidity: nat, balance0: nat, balance1: nat, supply: nat) -> Result<
    (nat, nat),
    Error,
> {
    if liquidity * balance0 >= modulus() || liquidity * balance1 >= modulus() {
        Err(Error::Overflow)
    } else if supply == 0 {
        Err(Error::Math)
    } else if payout(liquidity, balance0, supply) == 0 || payout(liquidity, balance1, supply) == 0 {
        Err(Error::InsufficientLiquidityBurned)
    } else {
        Ok((payout(liquidity, balance0, supply), payout(liquidity, balance1, supply)))
    }
}

/// How much of a token came in during a swap: what the balance holds beyond
/// the reserve left after the output.
pub open spec fn amount_in(balance: nat, reserve: nat, amount_out: nat) -> nat {
    let left: nat = if reserve >= amount_out {
        (reserve - amount_out) as nat
    } else {
        0
    };
    if balance >= left {
        (balance - left) as nat
    } else {
        0
    }
}

/// The outcome of the checks of a classic swap, once the new balances are known.
pub open spec fn swap_result(
    reserve0: nat,
    reserve1: nat,
    amount0_out: nat,
    amount1_out: nat,
    balance0: nat,
    balance1: nat,
) -> Result<(), Error> {
    let in0 = amount_in(balance0, reserve0, amount0_out);
    let in1 = amount_in(balance1, reserve1, amount1_out);
    if amount0_out == 0 && amount1_out == 0 {
        Err(Error::InsufficientOutputAmount)
    } else if amount0_out >= reserve0 || amount1_out >= reserve1 {
        Err(Error::InsufficientLiquidity)
    } else if in0 == 0 && in1 == 0 {
        Err(Error::InsufficientInputAmount)
    } else if balance0 * 1000 >= modulus() || in0 * 3 >= modulus() || balance1 * 1000
        >= modulus() || in1 * 3 >= modulus() {
        Err(Error::Overflow)
    } else if balance0 * 1000 < in0 * 3 || balance1 * 1000 < in1 * 3 {
        Err(Error::Underflow)
    } else if (balance0 * 1000 - in0 * 3) * (balance1 * 1000 - in1 * 3) >= modulus() || reserve0
        * reserve1 >= modulus() || reserve0 * reserve1 * 1_000_000 >= modulus() {
        Err(Error::Overflow)
    } else if (balance0 * 1000 - in0 * 3) * (balance1 * 1000 - in1 * 3) < reserve0 * reserve1
        * 1_000_000 {
        Err(Error::InvariantViolated)
    } else {
        Ok(())
    }
}

/// The first request checks of a classic swap, made before any transfer.
pub open spec fn swap_request_result(
    reserve0: nat,
    reserve1: nat,
    amount0_out: nat,
    amount1_out: nat,
) -> Result<(), Error> {
    if amount0_out == 0 && amount1_out == 0 {
        Err(Error::InsufficientOutputAmount)
    } else if amount0_out >= reserve0 || amount1_out >= reserve1 {
        Err(Error::InsufficientLiquidity)
    } else {
        Ok(())
    }
}

pub struct AMM {
    factory: Address,
    token0: Address,
    token1: Address,
    reserve0: Uint256,
    reserve1: Uint256,
    lptoken: LpToken,
    swap_fee: Uint256,
    records: Vec<(Address, Record)>,
}

impl AMM {
    pub closed spec fn wf(&self) -> bool {
        self.lptoken.wf()
    }

    pub closed spec fn factory_of(&self) -> Address {
        self.factory
    }

    pub closed spec fn tokens(&self) -> (Address, Address) {
        (self.token0, self.token1)
    }

    pub closed spec fn reserves(&self) -> (nat, nat) {
        (self.reserve0.value(), self.reserve1.value())
    }

    pub closed spec fn lp_supply(&self) -> nat {
        self.lptoken.supply()
    }

    pub closed spec fn lp_balance(&self, a: Address) -> nat {
        self.lptoken.balance(a)
    }

    pub closed spec fn fee(&self) -> nat {
        self.swap_fee.value()
    }

    /// The LP ledger, the fee and the weighted records are those of `o`.
    pub closed spec fn same_books(&self, o: &AMM) -> bool {
        self.lptoken == o.lptoken && self.swap_fee == o.swap_fee && self.records == o.records
    }

    pub closed spec fn records_of(&self) -> Seq<(Address, Record)> {
        self.records@
    }

    /// An uninitialised pool: no tokens, empty reserves, no LP units, no fee.
    pub fn new() -> (r: AMM)
        ensures
            r.wf(),
            r.factory_of().is_zero(),
            r.reserves() == (0nat, 0nat),
            r.lp_supply() == 0,
            forall|a: Address| r.lp_balance(a) == 0,
            r.fee() == 0,
            r.records_of().len() == 0,
    {
        AMM {
            factory: Address::zero(),
            token0: Address::zero(),
            token1: Address::zero(),
            reserve0: Uint256::zero(),
            reserve1: Uint256::zero(),
            lptoken: LpToken::new(),
            swap_fee: Uint256::zero(),
            records: Vec::new(),
        }
    }

    /// Sets the pair once; `sender` becomes the factory that owns the pool.
    pub fn initialize(&mut self, sender: Address, token0: Address, token1: Address) -> (r: Result<
        (),
        Error,
    >)
        requires
            old(self).wf(),
        ensures
            final(self).wf(),
            token0 == token1 ==> r == Err::<(), Error>(Error::IdenticalTokens),
            token0 != token1 && !old(self).factory_of().is_zero() ==> r == Err::<(), Error>(
                Error::AlreadyInitialized,
            ),
            r is Err ==> *final(self) == *old(self),
            r is Ok <==> token0 != token1 && old(self).factory_of().is_zero(),
            r is Ok ==> final(self).factory_of() == sender && final(self).tokens() == (
                token0,
                token1,
            ),
            r is Ok ==> final(self).reserves() == old(self).reserves() && final(self).same_books(
                old(self),
            ),
    {
        if token0 == token1 {
            return Err(Error::IdenticalTokens);
        }
        if self.factory.hi != 0 || self.factory.lo != 0 {
            return Err(Error::AlreadyInitialized);
        }
        self.factory = sender;
        self.token0 = token0;
        self.token1 = token1;
        Ok(())
    }

    pub fn get_tokens(&self) -> (r: (Address, Address))
        ensures
            r == self.tokens(),
    {
        (self.token0, self.token1)
    }

    pub fn get_reserves(&self) -> (r: (Uint256, Uint256))
        ensures
            (r.0.value(), r.1.value()) == self.reserves(),
    {
        (self.reserve0, self.reserve1)
    }

    /// `reserve1 / reserve0` rounded down, or zero when `reserve0` is zero.
    pub fn price(&self) -> (r: Uint256)
        ensures
            r.value() == if self.reserves().0 == 0 {
                0
            } else {
                self.reserves().1 / self.reserves().0
            },
    {
        match self.reserve1.checked_div(&self.reserve0) {
            Some(p) => p,
            None => Uint256::zero(),
        }
    }

    /// Commits `balance0` and `balance1` as the new reserves, but only when
    /// both old reserves are positive.
    pub fn update(&mut self, balance0: Uint256, balance1: Uint256, reserve0: Uint256, reserve1: Uint256)
        requires
            old(self).wf(),
        ensures
            final(self).wf(),
            final(self).reserves() == if reserve0.value() > 0 && reserve1.value() > 0 {
                (balance0.value(), balance1.value())
            } else {
                old(self).reserves()
            },
            final(self).same_books(old(self)),
            final(self).factory_of() == old(self).factory_of(),
            final(self).tokens() == old(self).tokens(),
            final(self).fee() == old(self).fee(),
            final(self).records_of() == old(self).records_of(),
            final(self).lp_supply() == old(self).lp_supply(),
            forall|a: Address| final(self).lp_balance(a) == old(self).lp_balance(a),
    {
        if !reserve0.is_zero() && !reserve1.is_zero() {
            self.reserve0 = balance0;
            self.reserve1 = balance1;
        }
    }


    /// The record of `token`, looked up from the end.
    fn find_record(&self, token: Address) -> (r: Option<Record>)
        ensures
            r == record_of(self.records@, token),
    {
        let mut j: usize = self.records.len();
        assert(self.records@.take(j as int) =~= self.records@);
        while j > 0
            invariant
                j <= self.records@.len(),
                record_of(self.records@, token) == record_of(self.records@.take(j as int), token),
            decreases j,
        {
            let ghost t = self.records@.take(j as int);
            assert(t.drop_last() =~= self.records@.take(j - 1));
            if self.records[j - 1].0 == token {
                return Some(self.records[j - 1].1);
            }
            j = j - 1;
        }
        None
    }

    /// Registers `token` with the weighted pool under the weight `denorm`.
    pub fn bind(&mut self, token: Address, denorm: Uint256)
        requires
            old(self).wf(),
        ensures
            final(self).wf(),
            record_of(final(self).records_of(), token) == Some(Record { bound: true, denorm }),
            forall|t: Address|
                t != token ==> record_of(final(self).records_of(), t) == record_of(
                    old(self).records_of(),
                    t,
                ),
            final(self).reserves() == old(self).reserves(),
            final(self).fee() == old(self).fee(),
            final(self).lp_supply() == old(self).lp_supply(),
            forall|a: Address| final(self).lp_balance(a) == old(self).lp_balance(a),
            final(self).factory_of() == old(self).factory_of(),
            final(self).tokens() == old(self).tokens(),
    {
        self.records.push((token, Record { bound: true, denorm }));
        assert(self.records@.drop_last() =~= old(self).records@);
    }

    /// Sets the weighted pool's swap fee, a fixed-point fraction.
    pub fn set_swap_fee(&mut self, fee: Uint256)
        requires
            old(self).wf(),
        ensures
            final(self).wf(),
            final(self).fee() == fee.value(),
            final(self).records_of() == old(self).records_of(),
            final(self).reserves() == old(self).reserves(),
            final(self).lp_supply() == old(self).lp_supply(),
            forall|a: Address| final(self).lp_balance(a) == old(self).lp_balance(a),
            final(self).factory_of() == old(self).factory_of(),
            final(self).tokens() == old(self).tokens(),
    {
        self.swap_fee = fee;
    }

    /// The checks of a weighted swap of exactly `token_amount_in` that come
    /// before the oracle is read: both tokens bound, and the input within
    /// its share of `balance_in`.
    pub fn check_swap_in(&self, token_in: Address, token_amount_in: Uint256, token_out: Address, balance_in: Uint256) -> (r: Result<(), Error>)
        ensures
            r == if !is_bound(self.records_of(), token_in) || !is_bound(self.records_of(), token_out) {
                Err(Error::TokenNotBound)
            } else {
                match bmul_spec(balance_in.value(), max_in_ratio()) {
                    None => Err(Error::Math),
                    Some(cap) => if token_amount_in.value() > cap {
                        Err(Error::TokenAmountInAboveMaxRatio)
                    } else {
                        Ok(())
                    },
                }
            },
    {
        match (self.find_record(token_in), self.find_record(token_out)) {
            (Some(a), Some(b)) => {
                if !a.bound || !b.bound {
                    return Err(Error::TokenNotBound);
                }
            },
            _ => return Err(Error::TokenNotBound),
        }
        let cap = match bmul(&balance_in, &Uint256::from_u64(500_000_000_000_000_000)) {
            Ok(c) => c,
            Err(e) => return Err(e),
        };
        if cap.lt(&token_amount_in) {
            return Err(Error::TokenAmountInAboveMaxRatio);
        }
        Ok(())
    }

    /// The checks of a weighted swap for exactly `token_amount_out` that come
    /// before the oracle is read: both tokens bound, and the output within
    /// its share of `balance_out`.
    pub fn check_swap_out(&self, token_in: Address, token_out: Address, token_amount_out: Uint256, balance_out: Uint256) -> (r: Result<(), Error>)
        ensures
            r == if !is_bound(self.records_of(), token_in) || !is_bound(self.records_of(), token_out) {
                Err(Error::TokenNotBound)
            } else {
                match bmul_spec(balance_out.value(), max_out_ratio()) {
                    None => Err(Error::Math),
                    Some(cap) => if token_amount_out.value() > cap {
                        Err(Error::TokenAmountOutAboveMaxRatio)
                    } else {
                        Ok(())
                    },
                }
            },
    {
        match (self.find_record(token_in), self.find_record(token_out)) {
            (Some(a), Some(b)) => {
                if !a.bound || !b.bound {
                    return Err(Error::TokenNotBound);
                }
            },
            _ => return Err(Error::TokenNotBound),
        }
        let cap = match bmul(&balance_out, &Uint256::from_u64(333_333_333_333_333_334)) {
            Ok(c) => c,
            Err(e) => return Err(e),
        };
        if cap.lt(&token_amount_out) {
            return Err(Error::TokenAmountOutAboveMaxRatio);
        }
        Ok(())
    }

    /// A weighted swap of exactly `token_amount_in` of `token_in` for
    /// `token_out`, on the balances the pool holds of both and the outcome
    /// of the oracle read that bounds the price. Returns the amount out and
    /// the spot price after; the caller moves the tokens.
    pub fn swap_exact_amount_in(
        &self,
        token_in: Address,
        token_amount_in: Uint256,
        token_out: Address,
        min_amount_out: Uint256,
        balance_in: Uint256,
        balance_out: Uint256,
        max_price: Result<Uint256, Error>,
    ) -> (r: Result<(Uint256, Uint256), Error>)
        ensures
            !is_bound(self.records_of(), token_in) || !is_bound(self.records_of(), token_out)
                ==> r == Err::<(Uint256, Uint256), Error>(Error::TokenNotBound),
            is_bound(self.records_of(), token_in) && is_bound(self.records_of(), token_out)
                ==> agrees_pair(
                r,
                swap_in_result(
                    balance_in.value(),
                    record_of(self.records_of(), token_in)->Some_0.denorm.value(),
                    balance_out.value(),
                    record_of(self.records_of(), token_out)->Some_0.denorm.value(),
                    self.fee(),
                    token_amount_in.value(),
                    min_amount_out.value(),
                    max_price,
                ),
            ),
    {
        let (rin, rout) = match (self.find_record(token_in), self.find_record(token_out)) {
            (Some(a), Some(b)) => {
                if !a.bound || !b.bound {
                    return Err(Error::TokenNotBound);
                }
                (a, b)
            },
            _ => return Err(Error::TokenNotBound),
        };
        swap_in_given_balances(
            balance_in,
            rin.denorm,
            balance_out,
            rout.denorm,
            self.swap_fee,
            token_amount_in,
            min_amount_out,
            max_price,
        )
    }

    /// A weighted swap of `token_in` for exactly `token_amount_out` of
    /// `token_out`, on the balances the pool holds of both and the outcome
    /// of the oracle read that bounds the price. Returns the amount in and
    /// the spot price after; the caller moves the tokens.
    pub fn swap_exact_amount_out(
        &self,
        token_in: Address,
        max_amount_in: Uint256,
        token_out: Address,
        token_amount_out: Uint256,
        balance_in: Uint256,
        balance_out: Uint256,
        max_price: Result<Uint256, Error>,
    ) -> (r: Result<(Uint256, Uint256), Error>)
        ensures
            !is_bound(self.records_of(), token_in) || !is_bound(self.records_of(), token_out)
                ==> r == Err::<(Uint256, Uint256), Error>(Error::TokenNotBound),
            is_bound(self.records_of(), token_in) && is_bound(self.records_of(), token_out)
                ==> agrees_pair(
                r,
                swap_out_result(
                    balance_in.value(),
                    record_of(self.records_of(), token_in)->Some_0.denorm.value(),
                    balance_out.value(),
                    record_of(self.records_of(), token_out)->Some_0.denorm.value(),
                    self.fee(),
                    max_amount_in.value(),
                    token_amount_out.value(),
                    max_price,
                ),
            ),
    {
        let (rin, rout) = match (self.find_record(token_in), self.find_record(token_out)) {
            (Some(a), Some(b)) => {
                if !a.bound || !b.bound {
                    return Err(Error::TokenNotBound);
                }
                (a, b)
            },
            _ => return Err(Error::TokenNotBound),
        };
        swap_out_given_balances(
            balance_in,
            rin.denorm,
            balance_out,
            rout.denorm,
            self.swap_fee,
            max_amount_in,
            token_amount_out,
            max_price,
        )
    }

    /// Mints `value` LP units to `sender`.
    pub fn mint(&mut self, sender: Address, value: Uint256) -> (r: Result<(), Error>)
        requires
            old(self).wf(),
        ensures
            final(self).wf(),
            r is Ok == (old(self).lp_supply() + value.value() < modulus()),
            r is Ok ==> final(self).lp_supply() == old(self).lp_supply() + value.value(),
            r is Ok ==> final(self).lp_balance(sender) == old(self).lp_balance(sender) + value.value(),
            r is Ok ==> forall|b: Address|
                b != sender ==> final(self).lp_balance(b) == old(self).lp_balance(b),
            r is Err ==> r == Err::<(), Error>(Error::Overflow) && *final(self) == *old(self),
            final(self).reserves() == old(self).reserves(),
    {
        self.lptoken.mint(sender, value)
    }

    /// Mints `value` LP units to `to`.
    pub fn mint_to(&mut self, to: Address, value: Uint256) -> (r: Result<(), Error>)
        requires
            old(self).wf(),
        ensures
            final(self).wf(),
            r is Ok == (old(self).lp_supply() + value.value() < modulus()),
            r is Ok ==> final(self).lp_supply() == old(self).lp_supply() + value.value(),
            r is Ok ==> final(self).lp_balance(to) == old(self).lp_balance(to) + value.value(),
            r is Ok ==> forall|b: Address|
                b != to ==> final(self).lp_balance(b) == old(self).lp_balance(b),
            r is Err ==> r == Err::<(), Error>(Error::Overflow) && *final(self) == *old(self),
            final(self).reserves() == old(self).reserves(),
    {
        self.lptoken.mint(to, value)
    }

    /// Burns `value` LP units of `sender`.
    pub fn burn(&mut self, sender: Address, value: Uint256) -> (r: Result<(), Error>)
        requires
            old(self).wf(),
        ensures
            final(self).wf(),
            r is Ok == (old(self).lp_balance(sender) >= value.value()),
            r is Ok ==> final(self).lp_supply() == old(self).lp_supply() - value.value(),
            r is Ok ==> final(self).lp_balance(sender) == old(self).lp_balance(sender) - value.value(),
            r is Ok ==> forall|b: Address|
                b != sender ==> final(self).lp_balance(b) == old(self).lp_balance(b),
            r is Err ==> r == Err::<(), Error>(Error::InsufficientBalance) && *final(self) == *old(
                self,
            ),
            final(self).reserves() == old(self).reserves(),
    {
        self.lptoken.burn(sender, value)
    }

    pub fn lp_total_supply(&self) -> (r: Uint256)
        requires
            self.wf(),
        ensures
            r.value() == self.lp_supply(),
    {
        self.lptoken.total_supply()
    }

    pub fn lp_balance_of(&self, a: Address) -> (r: Uint256)
        requires
            self.wf(),
        ensures
            r.value() == self.lp_balance(a),
    {
        self.lptoken.balance_of(a)
    }

    /// Takes a deposit: the pool now holds `balance0` and `balance1`, and what
    /// exceeds the reserves was paid in. Mints the LP units it is worth to
    /// `to` (on the first deposit, after locking the minimum at the zero
    /// address), then updates the reserves.
    pub fn add_liquidity(&mut self, to: Address, balance0: Uint256, balance1: Uint256) -> (r: Result<
        Uint256,
        Error,
    >)
        requires
            old(self).wf(),
        ensures
            final(self).wf(),
            old(self).reserves().0 > balance0.value() || old(self).reserves().1 > balance1.value()
                ==> r == Err::<Uint256, Error>(Error::Overflow),
            old(self).reserves().0 <= balance0.value() && old(self).reserves().1
                <= balance1.value() ==> match liquidity_result(
                (balance0.value() - old(self).reserves().0) as nat,
                (balance1.value() - old(self).reserves().1) as nat,
                old(self).lp_supply(),
                old(self).reserves().0,
                old(self).reserves().1,
            ) {
                Err(e) => r == Err::<Uint256, Error>(e),
                Ok(l) => if old(self).lp_supply() + locked(old(self).lp_supply()) + l
                    < modulus() {
                    r matches Ok(v) && v.value() == l
                } else {
                    r == Err::<Uint256, Error>(Error::Overflow)
                },
            },
            r is Err ==> *final(self) == *old(self),
            r matches Ok(v) ==> final(self).lp_supply() == old(self).lp_supply() + locked(
                old(self).lp_supply(),
            ) + v.value(),
            r matches Ok(v) ==> final(self).lp_balance(to) == old(self).lp_balance(to) + v.value()
                + if to.is_zero() {
                locked(old(self).lp_supply())
            } else {
                0
            },
            r is Ok && old(self).lp_supply() == 0 && !to.is_zero() ==> forall|z: Address|
                z.is_zero() ==> final(self).lp_balance(z) == old(self).lp_balance(z)
                    + MINIMUM_LIQUIDITY,
            r is Ok ==> forall|b: Address|
                b != to && !b.is_zero() ==> final(self).lp_balance(b) == old(self).lp_balance(b),
            r is Ok && old(self).lp_supply() > 0 ==> forall|b: Address|
                b != to ==> final(self).lp_balance(b) == old(self).lp_balance(b),
            r is Ok ==> final(self).reserves() == if old(self).reserves().0 > 0 && old(
                self,
            ).reserves().1 > 0 {
                (balance0.value(), balance1.value())
            } else {
                old(self).reserves()
            },
    {
        let reserve0 = self.reserve0;
        let reserve1 = self.reserve1;
        let amount0 = match balance0.checked_sub(&reserve0) {
            Some(a) => a,
            None => return Err(Error::Overflow),
        };
        let amount1 = match balance1.checked_sub(&reserve1) {
            Some(a) => a,
            None => return Err(Error::Overflow),
        };
        let supply = self.lptoken.total_supply();
        let bootstrap = supply.is_zero();
        let liquidity = if bootstrap {
            bootstrap_liquidity(&amount0, &amount1)
        } else {
            proportional_liquidity(&amount0, &amount1, &supply, &reserve0, &reserve1)
        };
        let liquidity = match liquidity {
            Ok(l) => l,
            Err(e) => return Err(e),
        };
        let lock = if bootstrap {
            Uint256::from_u64(MINIMUM_LIQUIDITY)
        } else {
            Uint256::zero()
        };
        let minted = match lock.checked_add(&liquidity) {
            Some(m) => m,
            None => return Err(Error::Overflow),
        };
        if supply.checked_add(&minted).is_none() {
            return Err(Error::Overflow);
        }
        if bootstrap {
            let _ = self.lptoken.mint(Address::zero(), lock);
        }
        let _ = self.lptoken.mint(to, liquidity);
        self.update(balance0, balance1, reserve0, reserve1);
        Ok(liquidity)
    }

    /// Pays out the LP units that the pool itself holds (`this` is the pool's
    /// own address): burns them and returns each token's share of the
    /// balances `balance0` and `balance1`. The caller transfers the amounts
    /// and then commits the balances it reads afterwards with `update`.
    pub fn remove_liquidity(&mut self, this: Address, balance0: Uint256, balance1: Uint256) -> (r:
        Result<(Uint256, Uint256), Error>)
        requires
            old(self).wf(),
        ensures
            final(self).wf(),
            match withdrawal_result(
                old(self).lp_balance(this),
                balance0.value(),
                balance1.value(),
                old(self).lp_supply(),
            ) {
                Ok((a0, a1)) => r matches Ok((v0, v1)) && v0.value() == a0 && v1.value() == a1,
                Err(e) => r == Err::<(Uint256, Uint256), Error>(e),
            },
            r is Err ==> *final(self) == *old(self),
            r is Ok ==> final(self).lp_supply() == old(self).lp_supply() - old(self).lp_balance(
                this,
            ),
            r is Ok ==> final(self).lp_balance(this) == 0,
            r is Ok ==> forall|b: Address|
                b != this ==> final(self).lp_balance(b) == old(self).lp_balance(b),
            final(self).reserves() == old(self).reserves(),
    {
        let liquidity = self.lptoken.balance_of(this);
        let supply = self.lptoken.total_supply();
        let prod0 = match liquidity.checked_mul(&balance0) {
            Some(p) => p,
            None => return Err(Error::Overflow),
        };
        let prod1 = match liquidity.checked_mul(&balance1) {
            Some(p) => p,
            None => return Err(Error::Overflow),
        };
        let amount0 = match prod0.checked_div(&supply) {
            Some(a) => a,
            None => return Err(Error::Math),
        };
        let amount1 = match prod1.checked_div(&supply) {
            Some(a) => a,
            None => return Err(Error::Math),
        };
        if amount0.is_zero() || amount1.is_zero() {
            return Err(Error::InsufficientLiquidityBurned);
        }
        let _ = self.lptoken.burn(this, liquidity);
        Ok((amount0, amount1))
    }

    /// The checks on a swap request that come before any transfer: some
    /// output is asked for, and less than each reserve.
    pub fn swap_request(&self, amount0_out: Uint256, amount1_out: Uint256) -> (r: Result<(), Error>)
        ensures
            r == swap_request_result(
                self.reserves().0,
                self.reserves().1,
                amount0_out.value(),
                amount1_out.value(),
            ),
    {
        if amount0_out.is_zero() && amount1_out.is_zero() {
            return Err(Error::InsufficientOutputAmount);
        }
        if !amount0_out.lt(&self.reserve0) || !amount1_out.lt(&self.reserve1) {
            return Err(Error::InsufficientLiquidity);
        }
        Ok(())
    }

    /// Settles a classic swap once the outputs went out and the pool's
    /// balances were read again: with the 0.3% fee taken from what came in,
    /// the constant product must not shrink. On success the balances become
    /// the reserves.
    pub fn swap(&mut self, amount0_out: Uint256, amount1_out: Uint256, balance0: Uint256, balance1: Uint256) -> (r: Result<(), Error>)
        requires
            old(self).wf(),
        ensures
            final(self).wf(),
            r == swap_result(
                old(self).reserves().0,
                old(self).reserves().1,
                amount0_out.value(),
                amount1_out.value(),
                balance0.value(),
                balance1.value(),
            ),
            r is Ok ==> final(self).reserves() == (balance0.value(), balance1.value()),
            final(self).same_books(old(self)),
            final(self).factory_of() == old(self).factory_of(),
            final(self).tokens() == old(self).tokens(),
            final(self).fee() == old(self).fee(),
            final(self).records_of() == old(self).records_of(),
            final(self).lp_supply() == old(self).lp_supply(),
            forall|a: Address| final(self).lp_balance(a) == old(self).lp_balance(a),
            r is Err ==> *final(self) == *old(self),
    {
        match self.swap_request(amount0_out, amount1_out) {
            Ok(()) => {},
            Err(e) => return Err(e),
        }
        let reserve0 = self.reserve0;
        let reserve1 = self.reserve1;
        let in0 = balance0.saturating_sub(&reserve0.saturating_sub(&amount0_out));
        let in1 = balance1.saturating_sub(&reserve1.saturating_sub(&amount1_out));
        if in0.is_zero() && in1.is_zero() {
            return Err(Error::InsufficientInputAmount);
        }
        let thousand = Uint256::from_u64(1000);
        let three = Uint256::from_u64(3);
        let (s0, t0, s1, t1) = match (
            balance0.checked_mul(&thousand),
            in0.checked_mul(&three),
            balance1.checked_mul(&thousand),
            in1.checked_mul(&three),
        ) {
            (Some(s0), Some(t0), Some(s1), Some(t1)) => (s0, t0, s1, t1),
            _ => return Err(Error::Overflow),
        };
        let (adjusted0, adjusted1) = match (s0.checked_sub(&t0), s1.checked_sub(&t1)) {
            (Some(a0), Some(a1)) => (a0, a1),
            _ => return Err(Error::Underflow),
        };
        let (product, k) = match (
            adjusted0.checked_mul(&adjusted1),
            reserve0.checked_mul(&reserve1),
        ) {
            (Some(p), Some(k)) => match k.checked_mul(&Uint256::from_u64(1_000_000)) {
                Some(k) => (p, k),
                None => return Err(Error::Overflow),
            },
            _ => return Err(Error::Overflow),
        };
        if product.lt(&k) {
            return Err(Error::InvariantViolated);
        }
        self.update(balance0, balance1, reserve0, reserve1);
        Ok(())
    }
}

/// A classic swap that passes its checks leaves a strictly larger product
/// of balances than the product of the reserves before it.
pub proof fn lemma_swap_grows_product(
    reserve0: nat,
    reserve1: nat,
    amount0_out: nat,
    amount1_out: nat,
    balance0: nat,
    balance1: nat,
)
    requires
        swap_result(reserve0, reserve1, amount0_out, amount1_out, balance0, balance1) is Ok,
    ensures
        balance0 * balance1 > reserve0 * reserve1,
{
    let in0 = amount_in(balance0, reserve0, amount0_out);
    let in1 = amount_in(balance1, reserve1, amount1_out);
    let adj0 = (balance0 * 1000 - in0 * 3) as nat;
    let adj1 = (balance1 * 1000 - in1 * 3) as nat;
    assert(reserve0 * reserve1 >= 1) by (nonlinear_arith)
        requires
            reserve0 >= 1,
            reserve1 >= 1,
    ;
    assert(adj0 * adj1 >= reserve0 * reserve1 * 1_000_000);
    assert(adj0 > 0 && adj1 > 0) by (nonlinear_arith)
        requires
            adj0 * adj1 >= reserve0 * reserve1 * 1_000_000,
            reserve0 * reserve1 >= 1,
    ;
    assert(adj0 * adj1 < (balance0 * 1000) * (balance1 * 1000)) by (nonlinear_arith)
        requires
            adj0 <= balance0 * 1000,
            adj1 <= balance1 * 1000,
            adj0 < balance0 * 1000 || adj1 < balance1 * 1000,
            adj0 > 0,
            adj1 > 0,
    ;
    assert(balance0 * balance1 > reserve0 * reserve1) by (nonlinear_arith)
        requires
            reserve0 * reserve1 * 1_000_000 < (balance0 * 1000) * (balance1 * 1000),
    ;
}

/// A share `m` of a pool whose supply grows from `s` to `s + m` by a
/// deposit `a` into reserve `r`, with `m * r <= a * s`, is worth no more
/// than `a`.
proof fn lemma_share_within_deposit(m: nat, a: nat, s: nat, r: nat)
    requires
        m * r <= a * s,
        s + m > 0,
    ensures
        payout(m, r + a, s + m) <= a,
{
    assert(m * (r + a) <= a * (s + m)) by (nonlinear_arith)
        requires
            m * r <= a * s,
    ;
    vstd::arithmetic::div_mod::lemma_div_is_ordered(
        (m * (r + a)) as int,
        (a * (s + m)) as int,
        (s + m) as int,
    );
    vstd::arithmetic::div_mod::lemma_div_multiples_vanish(a as int, (s + m) as int);
    assert(a * (s + m) == (s + m) * a) by (nonlinear_arith);
}

/// Depositing into a pool with LP units outstanding whose balances equal its
/// reserves, and at once withdrawing the LP units minted for it, with nothing
/// in between, pays out no more of either token than was deposited.
pub proof fn lemma_deposit_then_withdraw(
    amount0: nat,
    amount1: nat,
    supply: nat,
    reserve0: nat,
    reserve1: nat,
)
    requires
        supply > 0,
        liquidity_result(amount0, amount1, supply, reserve0, reserve1) is Ok,
    ensures
        ({
            let m = liquidity_result(amount0, amount1, supply, reserve0, reserve1)->Ok_0;
            payout(m, reserve0 + amount0, supply + m) <= amount0 && payout(
                m,
                reserve1 + amount1,
                supply + m,
            ) <= amount1
        }),
{
    let m = liquidity_result(amount0, amount1, supply, reserve0, reserve1)->Ok_0;
    vstd::arithmetic::div_mod::lemma_fundamental_div_mod((amount0 * supply) as int, reserve0 as int);
    vstd::arithmetic::div_mod::lemma_fundamental_div_mod((amount1 * supply) as int, reserve1 as int);
    assert(m * reserve0 <= amount0 * supply) by (nonlinear_arith)
        requires
            m <= amount0 * supply / reserve0,
            amount0 * supply == reserve0 * (amount0 * supply / reserve0) + (amount0 * supply)
                % reserve0,
            (amount0 * supply) % reserve0 >= 0,
            reserve0 > 0,
    ;
    assert(m * reserve1 <= amount1 * supply) by (nonlinear_arith)
        requires
            m <= amount1 * supply / reserve1,
            amount1 * supply == reserve1 * (amount1 * supply / reserve1) + (amount1 * supply)
                % reserve1,
            (amount1 * supply) % reserve1 >= 0,
            reserve1 > 0,
    ;
    lemma_share_within_deposit(m, amount0, supply, reserve0);
    lemma_share_within_deposit(m, amount1, supply, reserve1);
}

/// What the first depositor gets back by withdrawing at once: no more than
/// the deposit, and less by exactly the locked minimum's share rounded up.
proof fn lemma_first_share(l: nat, a: nat)
    requires
        l > 0,
    ensures
        payout(l, a, (l + MINIMUM_LIQUIDITY) as nat) <= a,
        a - payout(l, a, (l + MINIMUM_LIQUIDITY) as nat) <= a * (MINIMUM_LIQUIDITY as nat) / (l
            + MINIMUM_LIQUIDITY) as nat + 1,
        a - payout(l, a, (l + MINIMUM_LIQUIDITY) as nat) == (a * (MINIMUM_LIQUIDITY as nat) + l
            + MINIMUM_LIQUIDITY - 1) / ((l + MINIMUM_LIQUIDITY) as int),
{
    let li = l as int;
    let ai = a as int;
    let d = li + 1000;
    let q = payout(l, a, (l + MINIMUM_LIQUIDITY) as nat) as int;
    let f = (a * (MINIMUM_LIQUIDITY as nat) / (l + MINIMUM_LIQUIDITY) as nat) as int;
    vstd::arithmetic::div_mod::lemma_fundamental_div_mod(li * ai, d);
    vstd::arithmetic::div_mod::lemma_fundamental_div_mod(ai * 1000, d);
    assert(q == (li * ai) / d);
    assert(f == (ai * 1000) / d);
    assert(q <= ai) by (nonlinear_arith)
        requires
            li * ai == d * q + (li * ai) % d,
            (li * ai) % d >= 0,
            d == li + 1000,
            li > 0,
            ai >= 0,
    ;
    let e = ai * 1000 + d - 1;
    let rr = (li * ai) % d;
    assert(e == d * (ai - q) + (d - 1 - rr)) by (nonlinear_arith)
        requires
            li * ai == d * q + rr,
            d == li + 1000,
            e == ai * 1000 + d - 1,
    ;
    vstd::arithmetic::div_mod::lemma_fundamental_div_mod_converse(e, d, ai - q, d - 1 - rr);
        assert(ai - q <= f + 1) by (nonlinear_arith)
        requires
            li * ai == d * q + (li * ai) % d,
            (li * ai) % d < d,
            ai * 1000 == d * f + (ai * 1000) % d,
            (ai * 1000) % d >= 0,
            d == li + 1000,
            li > 0,
    ;
}

/// Depositing into an empty pool (no reserves and no balances, so that the
/// balances afterwards are the amounts) and at once withdrawing the LP units
/// minted for it pays back each amount, less exactly its share of the locked
/// minimum rounded up (so at most that share rounded down, plus one). A pool that holds tokens but no LP units
/// is not covered: the first depositor's units then claim those tokens too.
pub proof fn lemma_first_deposit_then_withdraw(amount0: nat, amount1: nat)
    requires
        bootstrap_result(amount0, amount1) is Ok,
    ensures
        ({
            let l = bootstrap_result(amount0, amount1)->Ok_0;
            let s = (l + MINIMUM_LIQUIDITY) as nat;
            &&& payout(l, amount0, s) <= amount0
            &&& amount0 - payout(l, amount0, s) <= amount0 * (MINIMUM_LIQUIDITY as nat) / s + 1
            &&& payout(l, amount1, s) <= amount1
            &&& amount1 - payout(l, amount1, s) <= amount1 * (MINIMUM_LIQUIDITY as nat) / s + 1
            &&& amount0 - payout(l, amount0, s) == (amount0 * (MINIMUM_LIQUIDITY as nat) + s - 1) / (s as int)
            &&& amount1 - payout(l, amount1, s) == (amount1 * (MINIMUM_LIQUIDITY as nat) + s - 1) / (s as int)
        }),
{
    let l = bootstrap_result(amount0, amount1)->Ok_0;
    let p = amount0 * amount1;
    let r = isqrt(p);
    crate::liquidity::sqrt_exists(p);
    assert(r >= 1001) by {
        if r < 1001 {
            assert((r + 1) * (r + 1) <= 1001 * 1001) by (nonlinear_arith)
                requires
                    r + 1 <= 1001,
            ;
        }
    }
    lemma_first_share(l, amount0);
    lemma_first_share(l, amount1);
}

/// The LP units locked away by a deposit into a pool with `supply` units.
pub open spec fn locked(supply: nat) -> nat {
    if supply == 0 {
        MINIMUM_LIQUIDITY as nat
    } else {
        0
    }
}

} // verus!
