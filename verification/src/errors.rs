use vstd::prelude::*;

verus! {

/// Errors surfaced by the pricing and settlement engine.
///
/// Every operation either completes or aborts with one of these codes and no
/// partial state change. None of them is retried internally: arithmetic that
/// would exceed the representable range is `MathOverflow` (never wrapped or
/// saturated), a quote below the caller's bound is `SlippageExceeded`, the
/// `InsufficientSupply` / `InsufficientPoolValue` pair are the solvency
/// guards, and the rest report an operation that is illegal in the market's
/// current lifecycle state.
#[derive(Clone, Copy, Debug, PartialEq, Eq, Structural)]
pub enum ErrorCode {
    /// Arithmetic exceeded the representable range, or a divisor was zero.
    MathOverflow,
    /// The quoted amount violates the caller's minimum.
    SlippageExceeded,
    /// The pool market has not been activated by its initial funding.
    MarketNotActive,
    /// The pool market already has a winner set.
    MarketAlreadyResolved,
    /// Trading on the curve market has been halted.
    TradingHalted,
    /// Resolution requires trading to be halted first.
    TradingNotHalted,
    /// Trading was already halted; halting is irreversible.
    AlreadyHalted,
    /// The curve market already has a winner set.
    AlreadyResolved,
    /// Redemption requires the market to be resolved.
    MarketNotResolved,
    /// The market is marked resolved but carries no winner.
    NoWinner,
    /// The side selector is out of range.
    InvalidTeam,
    /// More tokens offered for sale than are outstanding on that side.
    InsufficientSupply,
    /// The quoted value exceeds what the pool holds.
    InsufficientPoolValue,
    /// The holder has no balance of the winning side to redeem.
    NoWinningTokens,
}

} // verus!
