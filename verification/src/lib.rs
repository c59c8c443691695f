//! A binary-outcome prediction-market engine.
//!
//! Users deposit a base currency into a shared pool, receive YES/NO outcome
//! claims priced by an automated market-making curve, and are paid out
//! proportionally to their claims once an oracle resolves the market.
//!
//! This crate is the market-maker and settlement engine: the pricing curves
//! (constant-product and LMSR) that convert currency flow into outcome-claim
//! issuance, the liquidity accounting that keeps the pool solvent, and the
//! resolution and payout arithmetic. Custody of funds, account derivation and
//! authorization live outside the engine; callers hand it plain values and
//! apply the transfers, mints and burns it computes.

pub mod constant_product;
pub mod errors;
pub mod fixed;
pub mod lmsr;
pub mod market;

use vstd::prelude::*;

verus! {

/// The number of smallest currency units in one whole unit of the base
/// currency.
pub const BASE_UNITS_PER_WHOLE: u64 = 1_000_000_000;

/// The decimal scale of the base currency: `10^BASE_UNIT_DECIMALS` smallest
/// units make one whole unit.
pub const BASE_UNIT_DECIMALS: u32 = 9;

/// Converts an amount of whole currency units into smallest units.
///
/// Fails with `Overflow` when the scaled amount does not fit in 64 bits.
pub fn to_base_units(whole: u64) -> (r: Result<u64, errors::ErrorCode>)
    ensures
        whole * BASE_UNITS_PER_WHOLE <= u64::MAX ==> r == Ok::<u64, errors::ErrorCode>(
            (whole * BASE_UNITS_PER_WHOLE) as u64,
        ),
        whole * BASE_UNITS_PER_WHOLE > u64::MAX ==> r == Err::<u64, errors::ErrorCode>(
            errors::ErrorCode::Overflow,
        ),
{
    if whole <= u64::MAX / BASE_UNITS_PER_WHOLE {
        Ok(whole * BASE_UNITS_PER_WHOLE)
    } else {
        proof {
            assert(whole * BASE_UNITS_PER_WHOLE > u64::MAX) by (nonlinear_arith)
                requires
                    whole > u64::MAX as int / BASE_UNITS_PER_WHOLE as int,
                    BASE_UNITS_PER_WHOLE == 1_000_000_000,
            ;
        }
        Err(errors::ErrorCode::Overflow)
    }
}

} // verus!
