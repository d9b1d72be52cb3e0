//! The reasons an operation of the pool can fail.
use vstd::prelude::*;

verus! {

#[derive(Clone, Copy, Debug, PartialEq, Eq, Structural)]
pub enum Error {
    /// The pool was initialised before.
    AlreadyInitialized,
    /// A pool needs two different tokens.
    IdenticalTokens,
    /// A deposit would mint no LP units.
    ZeroLiquidity,
    /// A withdrawal would pay out nothing of one of the tokens.
    InsufficientLiquidityBurned,
    /// A sum or product left the 256-bit range.
    Overflow,
    /// A difference went below zero.
    Underflow,
    /// A swap asked for no output.
    InsufficientOutputAmount,
    /// A swap asked for at least the whole reserve.
    InsufficientLiquidity,
    /// A swap received no input.
    InsufficientInputAmount,
    /// The fee-adjusted constant product shrank.
    InvariantViolated,
    /// A holder's LP balance is smaller than the amount burned.
    InsufficientBalance,
    /// The input of a weighted swap exceeds its share of the balance.
    TokenAmountInAboveMaxRatio,
    /// The output of a weighted swap exceeds its share of the balance.
    TokenAmountOutAboveMaxRatio,
    /// The output of a weighted swap is under the caller's minimum.
    TokenAmountOutBelowMinOut,
    /// The input of a weighted swap is over the caller's maximum.
    TokenAmountInAboveMaxAmountIn,
    /// A spot price is above the oracle's bound.
    SpotPriceAboveMaxPrice,
    /// A swap lowered the spot price.
    SpotPriceAfterBelowSpotPriceBefore,
    /// The realised price is better for the trader than the spot price.
    SpotPriceBeforeAboveTokenRatio,
    /// A token transfer did not succeed.
    TransferFailed,
    /// No oracle has that name.
    UnknownOracle,
    /// An oracle's address text is not a valid checksummed address.
    InvalidAddress,
    /// A token is not registered with the pool.
    TokenNotBound,
    /// The factory does not know the pool, or it is not a two-token 50/50 pool.
    PoolDoesNotExist,
    /// An order does not sell one of the pool's two tokens for the other.
    OrderTokensMismatch,
    /// A division by zero, or a fixed-point value out of range.
    Math,
}

} // verus!
