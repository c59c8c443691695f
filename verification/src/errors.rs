//! The error taxonomy of the engine.

use vstd::prelude::*;

verus! {

/// Every way an engine operation can fail.
///
/// All errors are terminal for the operation that raised them: the engine
/// recovers by making no state change, never by retrying internally.
#[derive(Clone, Copy, Debug, PartialEq, Eq, Structural)]
pub enum ErrorCode {
    // Arithmetic.
    Overflow,
    Underflow,
    DivisionByZero,
    InvalidCalculation,
    // Trade preconditions.
    NoLiquidity,
    InsufficientLiquidity,
    AmountTooSmall,
    AmountTooLarge,
    // Lifecycle gating.
    MarketNotActive,
    MarketResolved,
    MarketExpired,
    InvalidDuration,
    // Settlement gating.
    OracleNotMatched,
    AlreadyResolved,
    MarketNotResolved,
    NotWinner,
    NoWinnings,
    AlreadyClaimed,
    // Claim-unit preconditions.
    InsufficientTokens,
    ZeroTokenMint,
    ZeroTokenBurn,
    // Liquidity-withdrawal preconditions.
    ExcessiveLiquidityRemoval,
}

} // verus!
