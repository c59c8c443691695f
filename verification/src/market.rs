//! The market aggregate and its operations.
//!
//! A [`Market`] is created once, mutated by liquidity deposits and
//! withdrawals and by buys while it is active and unresolved, mutated exactly
//! once by resolution, and read by payout claims afterwards. Every operation
//! is an atomic state transition: on any failure the market is left exactly
//! as it was.
//!
//! Custody is external: the engine computes the amounts to transfer, mint and
//! burn, and the caller applies them to the ledger together with the
//! transition.

use vstd::prelude::*;
use vstd::arithmetic::div_mod::lemma_fundamental_div_mod;
use vstd::arithmetic::div_mod::lemma_mod_division_less_than_divisor;
use crate::errors::ErrorCode;
use crate::constant_product;
use crate::constant_product::cp_quote_spec;
use crate::lmsr;
use crate::lmsr::lmsr_quote_spec;

verus! {

/// The pricing curve a market was created with.
#[derive(Clone, Copy, Debug, PartialEq, Eq, Structural)]
pub enum Curve {
    /// Reserve-based pricing: the product of the two outcome reserves is held
    /// across a trade.
    ConstantProduct,
    /// Cost-function pricing over outstanding issuance, with liquidity
    /// parameter `b` and the outcome token's decimal scale.
    Lmsr { b: u64, decimals: u8 },
}

/// A binary-outcome prediction market.
///
/// All currency amounts are in smallest currency units and all token amounts
/// in smallest token units. `fee_bps` is stored for the market's records but
/// reserved: no operation deducts a fee.
#[derive(Clone, Debug, PartialEq, Eq)]
pub struct Market {
    pub creator: u64,
    pub oracle_authority: u64,
    pub unique_market_id: u64,
    pub start_time: i64,
    pub end_time: i64,
    pub fee_bps: u32,
    pub question: String,
    pub curve: Curve,
    pub is_active: bool,
    pub resolved: bool,
    pub winning_outcome: bool,
    pub total_liquidity: u64,
    pub total_lp_supply: u64,
    pub yes_pool: u64,
    pub no_pool: u64,
    pub yes_tokens: u64,
    pub no_tokens: u64,
}

/// The market `initialize_market` returns, for every input: a fresh, active,
/// unresolved market with empty reserves and counters, or `InvalidDuration`
/// where the end time is not strictly after the start time.
pub open spec fn init_spec(
    creator: u64,
    oracle_authority: u64,
    unique_market_id: u64,
    start_time: i64,
    end_time: i64,
    fee_bps: u32,
    question: String,
    curve: Curve,
) -> Result<Market, ErrorCode> {
    if end_time <= start_time {
        Err(ErrorCode::InvalidDuration)
    } else {
        Ok(
            (Market {
                creator,
                oracle_authority,
                unique_market_id,
                start_time,
                end_time,
                fee_bps,
                question,
                curve,
                is_active: true,
                resolved: false,
                winning_outcome: false,
                total_liquidity: 0u64,
                total_lp_supply: 0u64,
                yes_pool: 0u64,
                no_pool: 0u64,
                yes_tokens: 0u64,
                no_tokens: 0u64,
            }),
        )
    }
}

/// Creates a market.
///
/// The caller supplies the timestamps (the clock is external); the end time
/// must be strictly after the start time. The market starts active,
/// unresolved and empty of liquidity and issuance.
pub fn initialize_market(
    creator: u64,
    oracle_authority: u64,
    unique_market_id: u64,
    start_time: i64,
    end_time: i64,
    fee_bps: u32,
    question: String,
    curve: Curve,
) -> (r: Result<Market, ErrorCode>)
    ensures
        r == init_spec(
            creator,
            oracle_authority,
            unique_market_id,
            start_time,
            end_time,
            fee_bps,
            question,
            curve,
        ),
{
    if end_time <= start_time {
        return Err(ErrorCode::InvalidDuration);
    }
    Ok(
        Market {
            creator,
            oracle_authority,
            unique_market_id,
            start_time,
            end_time,
            fee_bps,
            question,
            curve,
            is_active: true,
            resolved: false,
            winning_outcome: false,
            total_liquidity: 0,
            total_lp_supply: 0,
            yes_pool: 0,
            no_pool: 0,
            yes_tokens: 0,
            no_tokens: 0,
        },
    )
}

/// The market after a deposit together with the LP units minted for it, for
/// every input.
///
/// The genesis deposit seeds each reserve with half the amount and mints LP
/// units one to one; every later deposit mints
/// `amount * total_lp_supply / total_liquidity` LP units, widened before the
/// division and truncated. A zero deposit is `ZeroTokenMint`; a counter
/// leaving 64 bits is `Overflow`.
pub open spec fn deposit_spec(m: Market, amount: u64) -> Result<(Market, u64), ErrorCode> {
    if amount == 0 {
        Err(ErrorCode::ZeroTokenMint)
    } else if m.total_liquidity == 0 {
        if m.total_lp_supply + amount > u64::MAX {
            Err(ErrorCode::Overflow)
        } else {
            Ok(
                (
                    (Market {
                        yes_pool: (amount as int / 2) as u64,
                        no_pool: (amount as int / 2) as u64,
                        total_liquidity: amount,
                        total_lp_supply: (m.total_lp_supply + amount) as u64,
                        ..m
                    }),
                    amount,
                ),
            )
        }
    } else {
        let minted = (amount * m.total_lp_supply) / m.total_liquidity as int;
        if minted > u64::MAX {
            Err(ErrorCode::Overflow)
        } else if m.total_liquidity + amount > u64::MAX {
            Err(ErrorCode::Overflow)
        } else if m.total_lp_supply + minted > u64::MAX {
            Err(ErrorCode::Overflow)
        } else {
            Ok(
                (
                    (Market {
                        total_liquidity: (m.total_liquidity + amount) as u64,
                        total_lp_supply: (m.total_lp_supply + minted) as u64,
                        ..m
                    }),
                    minted as u64,
                ),
            )
        }
    }
}

/// Deposits `amount` smallest currency units of liquidity and returns the LP
/// units minted for the depositor.
///
/// On any failure the market is unchanged.
pub fn add_liquidity(market: &mut Market, amount: u64) -> (r: Result<u64, ErrorCode>)
    ensures
        match deposit_spec(*old(market), amount) {
            Ok((m2, minted)) => r == Ok::<u64, ErrorCode>(minted) && *final(market) == m2,
            Err(e) => r == Err::<u64, ErrorCode>(e) && *final(market) == *old(market),
        },
{
    if amount == 0 {
        return Err(ErrorCode::ZeroTokenMint);
    }
    if market.total_liquidity == 0 {
        let new_supply = match market.total_lp_supply.checked_add(amount) {
            Some(v) => v,
            None => {
                return Err(ErrorCode::Overflow);
            },
        };
        let half = amount / 2;
        market.yes_pool = half;
        market.no_pool = half;
        market.total_liquidity = amount;
        market.total_lp_supply = new_supply;
        Ok(amount)
    } else {
        proof {
            assert(amount * market.total_lp_supply <= u64::MAX * u64::MAX) by (nonlinear_arith)
                requires
                    amount <= u64::MAX,
                    market.total_lp_supply <= u64::MAX,
            ;
        }
        let wide = (amount as u128) * (market.total_lp_supply as u128);
        let minted_wide = wide / (market.total_liquidity as u128);
        if minted_wide > u64::MAX as u128 {
            return Err(ErrorCode::Overflow);
        }
        let minted = minted_wide as u64;
        let new_liquidity = match market.total_liquidity.checked_add(amount) {
            Some(v) => v,
            None => {
                return Err(ErrorCode::Overflow);
            },
        };
        let new_supply = match market.total_lp_supply.checked_add(minted) {
            Some(v) => v,
            None => {
                return Err(ErrorCode::Overflow);
            },
        };
        market.total_liquidity = new_liquidity;
        market.total_lp_supply = new_supply;
        Ok(minted)
    }
}

/// The market after a withdrawal together with the currency paid out, for
/// every input.
///
/// Burning `lp_units` LP units pays out
/// `lp_units * total_liquidity / total_lp_supply` currency units, widened
/// before the division and truncated, and decrements both counters. Burning
/// zero units is `ZeroTokenBurn`; burning more than the outstanding supply is
/// `ExcessiveLiquidityRemoval`.
pub open spec fn withdraw_spec(m: Market, lp_units: u64) -> Result<(Market, u64), ErrorCode> {
    if lp_units == 0 {
        Err(ErrorCode::ZeroTokenBurn)
    } else if lp_units > m.total_lp_supply {
        Err(ErrorCode::ExcessiveLiquidityRemoval)
    } else {
        let amount = (lp_units * m.total_liquidity) / m.total_lp_supply as int;
        Ok(
            (
                (Market {
                    total_liquidity: (m.total_liquidity - amount) as u64,
                    total_lp_supply: (m.total_lp_supply - lp_units) as u64,
                    ..m
                }),
                amount as u64,
            ),
        )
    }
}

/// Burns `lp_units` LP units and returns the proportional share of the pooled
/// currency to pay the provider.
///
/// On any failure the market is unchanged.
pub fn withdraw_liquidity(market: &mut Market, lp_units: u64) -> (r: Result<u64, ErrorCode>)
    ensures
        match withdraw_spec(*old(market), lp_units) {
            Ok((m2, amount)) => r == Ok::<u64, ErrorCode>(amount) && *final(market) == m2,
            Err(e) => r == Err::<u64, ErrorCode>(e) && *final(market) == *old(market),
        },
{
    if lp_units == 0 {
        return Err(ErrorCode::ZeroTokenBurn);
    }
    if lp_units > market.total_lp_supply {
        return Err(ErrorCode::ExcessiveLiquidityRemoval);
    }
    proof {
        assert(lp_units * market.total_liquidity <= u64::MAX * u64::MAX) by (nonlinear_arith)
            requires
                lp_units <= u64::MAX,
                market.total_liquidity <= u64::MAX,
        ;
    }
    let wide = (lp_units as u128) * (market.total_liquidity as u128);
    let amount_wide = wide / (market.total_lp_supply as u128);
    proof {
        lemma_payout_bounded(
            lp_units as int,
            market.total_liquidity as int,
            market.total_lp_supply as int,
        );
    }
    let amount = amount_wide as u64;
    market.total_liquidity = market.total_liquidity - amount;
    market.total_lp_supply = market.total_lp_supply - lp_units;
    Ok(amount)
}

/// A share of `share <= whole` units of a total of `whole` claims on a pot of
/// `pot` pays out at most the whole pot.
proof fn lemma_payout_bounded(share: int, pot: int, whole: int)
    requires
        0 <= share <= whole,
        0 <= pot,
        0 < whole,
    ensures
        0 <= (share * pot) / whole <= pot,
{
    assert(share * pot >= 0) by (nonlinear_arith)
        requires
            share >= 0,
            pot >= 0,
    ;
    assert(share * pot <= whole * pot) by (nonlinear_arith)
        requires
            share <= whole,
            pot >= 0,
    ;
    lemma_fundamental_div_mod(share * pot, whole);
    lemma_mod_division_less_than_divisor(share * pot, whole);
    let q = (share * pot) / whole;
    let rem = (share * pot) % whole;
    assert(q >= 0) by (nonlinear_arith)
        requires
            share * pot == whole * q + rem,
            rem < whole,
            share * pot >= 0,
            whole > 0,
    ;
    assert(q <= pot) by (nonlinear_arith)
        requires
            share * pot == whole * q + rem,
            rem >= 0,
            share * pot <= whole * pot,
            whole > 0,
    ;
}

/// The market after a buy together with the token units issued and the
/// currency owed, for every input.
///
/// Trading is gated: the market must be active, unresolved and carrying
/// liquidity, and the intent must be positive. Under the constant-product
/// curve the intent is the currency paid in; under the LMSR curve it is the
/// number of whole outcome tokens requested. Either way the issued amount is
/// added to the bought side's cumulative issuance counter.
pub open spec fn buy_spec(m: Market, intent: u64, yes_side: bool) -> Result<
    (Market, u64, u64),
    ErrorCode,
> {
    if !m.is_active {
        Err(ErrorCode::MarketNotActive)
    } else if m.resolved {
        Err(ErrorCode::MarketResolved)
    } else if m.total_liquidity == 0 {
        Err(ErrorCode::NoLiquidity)
    } else if intent == 0 {
        Err(ErrorCode::AmountTooSmall)
    } else {
        match m.curve {
            Curve::ConstantProduct => match cp_quote_spec(m.yes_pool, m.no_pool, intent, yes_side) {
                Err(e) => Err(e),
                Ok(q) => {
                    let counter = if yes_side {
                        m.yes_tokens
                    } else {
                        m.no_tokens
                    };
                    if counter + q.tokens_out > u64::MAX {
                        Err(ErrorCode::Overflow)
                    } else if yes_side {
                        Ok(
                            (
                                (Market {
                                    yes_pool: q.new_yes_pool,
                                    no_pool: q.new_no_pool,
                                    yes_tokens: (m.yes_tokens + q.tokens_out) as u64,
                                    ..m
                                }),
                                q.tokens_out,
                                intent,
                            ),
                        )
                    } else {
                        Ok(
                            (
                                (Market {
                                    yes_pool: q.new_yes_pool,
                                    no_pool: q.new_no_pool,
                                    no_tokens: (m.no_tokens + q.tokens_out) as u64,
                                    ..m
                                }),
                                q.tokens_out,
                                intent,
                            ),
                        )
                    }
                },
            },
            Curve::Lmsr { b, decimals } => match lmsr_quote_spec(
                b,
                m.yes_tokens,
                m.no_tokens,
                decimals,
                intent,
                yes_side,
            ) {
                Err(e) => Err(e),
                Ok((units, cost)) => if yes_side {
                    Ok(
                        (
                            (Market { yes_tokens: (m.yes_tokens + units) as u64, ..m }),
                            units,
                            cost,
                        ),
                    )
                } else {
                    Ok(
                        ((Market { no_tokens: (m.no_tokens + units) as u64, ..m }), units, cost),
                    )
                },
            },
        }
    }
}

/// Buys outcome tokens on one side of the market.
///
/// Returns the token units issued and the currency units owed for them; the
/// caller collects the payment and mints the tokens atomically with this
/// transition. On any failure the market is unchanged.
///
/// The end time is advisory data: the engine does not gate trading on it, and
/// a caller that wants expiry enforcement checks it before invoking a buy.
pub fn buy_outcomes(market: &mut Market, intent: u64, yes_side: bool) -> (r: Result<
    (u64, u64),
    ErrorCode,
>)
    ensures
        match buy_spec(*old(market), intent, yes_side) {
            Ok((m2, issued, cost)) => r == Ok::<(u64, u64), ErrorCode>((issued, cost))
                && *final(market) == m2,
            Err(e) => r == Err::<(u64, u64), ErrorCode>(e) && *final(market) == *old(market),
        },
{
    if !market.is_active {
        return Err(ErrorCode::MarketNotActive);
    }
    if market.resolved {
        return Err(ErrorCode::MarketResolved);
    }
    if market.total_liquidity == 0 {
        return Err(ErrorCode::NoLiquidity);
    }
    if intent == 0 {
        return Err(ErrorCode::AmountTooSmall);
    }
    match market.curve {
        Curve::ConstantProduct => {
            let q = match constant_product::quote_buy(
                market.yes_pool,
                market.no_pool,
                intent,
                yes_side,
            ) {
                Ok(q) => q,
                Err(e) => {
                    return Err(e);
                },
            };
            if yes_side {
                let new_counter = match market.yes_tokens.checked_add(q.tokens_out) {
                    Some(v) => v,
                    None => {
                        return Err(ErrorCode::Overflow);
                    },
                };
                market.yes_pool = q.new_yes_pool;
                market.no_pool = q.new_no_pool;
                market.yes_tokens = new_counter;
                Ok((q.tokens_out, intent))
            } else {
                let new_counter = match market.no_tokens.checked_add(q.tokens_out) {
                    Some(v) => v,
                    None => {
                        return Err(ErrorCode::Overflow);
                    },
                };
                market.yes_pool = q.new_yes_pool;
                market.no_pool = q.new_no_pool;
                market.no_tokens = new_counter;
                Ok((q.tokens_out, intent))
            }
        },
        Curve::Lmsr { b, decimals } => {
            let (units, cost) = match lmsr::quote_buy(
                b,
                market.yes_tokens,
                market.no_tokens,
                decimals,
                intent,
                yes_side,
            ) {
                Ok(v) => v,
                Err(e) => {
                    return Err(e);
                },
            };
            proof {
                lmsr::lemma_quote_ok_fits(
                    b,
                    market.yes_tokens,
                    market.no_tokens,
                    decimals,
                    intent,
                    yes_side,
                );
            }
            if yes_side {
                market.yes_tokens = market.yes_tokens + units;
            } else {
                market.no_tokens = market.no_tokens + units;
            }
            Ok((units, cost))
        },
    }
}

/// The market after a resolution attempt, for every input.
///
/// Resolution happens exactly once, and only by the oracle authority: a
/// resolved market answers `AlreadyResolved`, any other caller
/// `OracleNotMatched`.
pub open spec fn resolve_spec(m: Market, caller: u64, outcome: bool) -> Result<Market, ErrorCode> {
    if m.resolved {
        Err(ErrorCode::AlreadyResolved)
    } else if caller != m.oracle_authority {
        Err(ErrorCode::OracleNotMatched)
    } else {
        Ok((Market { resolved: true, winning_outcome: outcome, ..m }))
    }
}

/// Resolves the market to `outcome`.
///
/// Only the oracle authority may resolve, and only once; afterwards the
/// market is permanently resolved with the given winning outcome. On any
/// failure the market is unchanged. Whether resolution may happen before the
/// market's end time is left to the caller, as with trading.
pub fn resolve_market(market: &mut Market, caller: u64, outcome: bool) -> (r: Result<
    (),
    ErrorCode,
>)
    ensures
        match resolve_spec(*old(market), caller, outcome) {
            Ok(m2) => r == Ok::<(), ErrorCode>(()) && *final(market) == m2,
            Err(e) => r == Err::<(), ErrorCode>(e) && *final(market) == *old(market),
        },
{
    if market.resolved {
        return Err(ErrorCode::AlreadyResolved);
    }
    if caller != market.oracle_authority {
        return Err(ErrorCode::OracleNotMatched);
    }
    market.resolved = true;
    market.winning_outcome = outcome;
    Ok(())
}

/// Resolution is terminal: once a resolve has succeeded, every further
/// resolve attempt on the resulting market fails with `AlreadyResolved`, by
/// any caller and for any outcome, so the first resolution's state stands.
pub proof fn lemma_resolve_is_terminal(
    m: Market,
    caller: u64,
    outcome: bool,
    caller2: u64,
    outcome2: bool,
)
    requires
        resolve_spec(m, caller, outcome) is Ok,
    ensures
        resolve_spec(resolve_spec(m, caller, outcome)->Ok_0, caller2, outcome2) == Err::<
            Market,
            ErrorCode,
        >(ErrorCode::AlreadyResolved),
{
}

/// The payout of a claim against a resolved market, for every input: the
/// currency paid to the user and the winning-side units to burn, all of the
/// user's holding.
pub open spec fn claim_spec(m: Market, user_yes: u64, user_no: u64, vault_balance: u64) -> Result<
    (u64, u64),
    ErrorCode,
> {
    if !m.resolved {
        Err(ErrorCode::MarketNotResolved)
    } else {
        let units = if m.winning_outcome {
            user_yes
        } else {
            user_no
        };
        let total = if m.winning_outcome {
            m.yes_tokens
        } else {
            m.no_tokens
        };
        if units == 0 {
            Err(ErrorCode::NoWinnings)
        } else {
            Ok((((units * vault_balance) / total as int) as u64, units))
        }
    }
}

/// Computes the payout for a holder of winning-side claim units.
///
/// `user_yes` and `user_no` are the user's holdings of each side's claim
/// units and may not exceed the cumulative issuance of that side;
/// `vault_balance` is the pooled currency backing the claims. The payout is
/// the user's pro-rata share `units * vault_balance / total_issued`, and the
/// returned burn amount retires the user's whole winning-side holding. The
/// market itself is not changed by a claim.
pub fn claim_winnings(market: &Market, user_yes: u64, user_no: u64, vault_balance: u64) -> (r:
    Result<(u64, u64), ErrorCode>)
    requires
        user_yes <= market.yes_tokens,
        user_no <= market.no_tokens,
    ensures
        r == claim_spec(*market, user_yes, user_no, vault_balance),
{
    if !market.resolved {
        return Err(ErrorCode::MarketNotResolved);
    }
    let units = if market.winning_outcome {
        user_yes
    } else {
        user_no
    };
    let total = if market.winning_outcome {
        market.yes_tokens
    } else {
        market.no_tokens
    };
    if units == 0 {
        return Err(ErrorCode::NoWinnings);
    }
    proof {
        assert(units * vault_balance <= u64::MAX * u64::MAX) by (nonlinear_arith)
            requires
                units <= u64::MAX,
                vault_balance <= u64::MAX,
        ;
    }
    let wide = (units as u128) * (vault_balance as u128);
    let payout_wide = wide / (total as u128);
    proof {
        lemma_payout_bounded(units as int, vault_balance as int, total as int);
    }
    Ok((payout_wide as u64, units))
}

/// Claims are gated by resolution: before a resolve every claim fails with
/// `MarketNotResolved`, and after it a user holding no winning-side units
/// fails with `NoWinnings`.
pub proof fn lemma_claim_gating(m: Market, user_yes: u64, user_no: u64, vault_balance: u64)
    ensures
        !m.resolved ==> claim_spec(m, user_yes, user_no, vault_balance) == Err::<
            (u64, u64),
            ErrorCode,
        >(ErrorCode::MarketNotResolved),
        m.resolved && (if m.winning_outcome {
            user_yes
        } else {
            user_no
        }) == 0 ==> claim_spec(m, user_yes, user_no, vault_balance) == Err::<
            (u64, u64),
            ErrorCode,
        >(ErrorCode::NoWinnings),
{
}

/// A buy on a constant-product market moves along the curve, never off it:
/// the product of the reserves never grows across the trade, and it shrinks
/// only by the integer-truncation remainder, which stays below the grown
/// opposing reserve and stays in the pool.
pub proof fn lemma_buy_preserves_product(m: Market, intent: u64, yes_side: bool)
    requires
        m.curve == Curve::ConstantProduct,
        buy_spec(m, intent, yes_side) is Ok,
    ensures
        ({
            let (m2, issued, cost) = buy_spec(m, intent, yes_side)->Ok_0;
            &&& m2.yes_pool * m2.no_pool <= m.yes_pool * m.no_pool
            &&& m.yes_pool * m.no_pool - m2.yes_pool * m2.no_pool < (if yes_side {
                m2.no_pool
            } else {
                m2.yes_pool
            })
        }),
{
    crate::constant_product::lemma_cp_preserves_product(
        m.yes_pool,
        m.no_pool,
        intent,
        yes_side,
    );
}

/// Liquidity accounting: the pooled liquidity starts at zero, strictly grows
/// with each deposit by exactly the amount deposited, and shrinks with each
/// withdrawal by exactly the amount paid out, which never exceeds what the
/// pool holds.
pub proof fn lemma_liquidity_accounting(m: Market, amount: u64, lp_units: u64)
    ensures
        deposit_spec(m, amount) is Ok ==> ({
            let (m2, minted) = deposit_spec(m, amount)->Ok_0;
            m2.total_liquidity == m.total_liquidity + amount && m2.total_liquidity
                > m.total_liquidity
        }),
        withdraw_spec(m, lp_units) is Ok ==> ({
            let (m2, paid) = withdraw_spec(m, lp_units)->Ok_0;
            paid <= m.total_liquidity && m2.total_liquidity == m.total_liquidity - paid
        }),
{
    if withdraw_spec(m, lp_units) is Ok {
        lemma_payout_bounded(lp_units as int, m.total_liquidity as int, m.total_lp_supply as int);
    }
}

/// A claim never pays out more than the vault holds: the payout of any
/// holding within the winning side's issuance is bounded by the vault
/// balance.
pub proof fn lemma_claim_solvent(m: Market, user_yes: u64, user_no: u64, vault_balance: u64)
    requires
        user_yes <= m.yes_tokens,
        user_no <= m.no_tokens,
        claim_spec(m, user_yes, user_no, vault_balance) is Ok,
    ensures
        claim_spec(m, user_yes, user_no, vault_balance)->Ok_0.0 <= vault_balance,
{
    let units: u64 = if m.winning_outcome {
        user_yes
    } else {
        user_no
    };
    let total: u64 = if m.winning_outcome {
        m.yes_tokens
    } else {
        m.no_tokens
    };
    lemma_payout_bounded(units as int, vault_balance as int, total as int);
}

/// Pro-rata payouts are jointly solvent: where two holdings together stay
/// within the winning side's issuance, their payouts against one vault
/// balance sum to at most that balance, so the settlement path cannot
/// overdraw the pool.
pub proof fn lemma_claims_jointly_solvent(
    m: Market,
    y1: u64,
    n1: u64,
    y2: u64,
    n2: u64,
    vault_balance: u64,
)
    requires
        y1 + y2 <= m.yes_tokens,
        n1 + n2 <= m.no_tokens,
        claim_spec(m, y1, n1, vault_balance) is Ok,
        claim_spec(m, y2, n2, vault_balance) is Ok,
    ensures
        claim_spec(m, y1, n1, vault_balance)->Ok_0.0 + claim_spec(m, y2, n2, vault_balance)->Ok_0.0
            <= vault_balance,
{
    let u1: int = if m.winning_outcome {
        y1 as int
    } else {
        n1 as int
    };
    let u2: int = if m.winning_outcome {
        y2 as int
    } else {
        n2 as int
    };
    let t: int = if m.winning_outcome {
        m.yes_tokens as int
    } else {
        m.no_tokens as int
    };
    let v = vault_balance as int;
    let p1 = (u1 * v) / t;
    let p2 = (u2 * v) / t;
    lemma_fundamental_div_mod(u1 * v, t);
    lemma_mod_division_less_than_divisor(u1 * v, t);
    lemma_fundamental_div_mod(u2 * v, t);
    lemma_mod_division_less_than_divisor(u2 * v, t);
    assert(p1 * t <= u1 * v) by (nonlinear_arith)
        requires
            u1 * v == t * p1 + (u1 * v) % t,
            (u1 * v) % t >= 0,
    ;
    assert(p2 * t <= u2 * v) by (nonlinear_arith)
        requires
            u2 * v == t * p2 + (u2 * v) % t,
            (u2 * v) % t >= 0,
    ;
    assert(p1 + p2 <= v) by (nonlinear_arith)
        requires
            p1 * t <= u1 * v,
            p2 * t <= u2 * v,
            u1 + u2 <= t,
            v >= 0,
            t > 0,
    ;
    lemma_payout_bounded(u1, v, t);
    lemma_payout_bounded(u2, v, t);
}

/// Each non-genesis deposit mints LP units proportional to the deposited
/// amount against the pool, within one unit of truncation: the minted units
/// are the largest whole number with
/// `minted / amount <= total_lp_supply / total_liquidity`.
pub proof fn lemma_deposit_minted_proportional(m: Market, amount: u64)
    requires
        m.total_liquidity > 0,
        deposit_spec(m, amount) is Ok,
    ensures
        ({
            let (m2, minted) = deposit_spec(m, amount)->Ok_0;
            &&& minted * m.total_liquidity <= amount * m.total_lp_supply
            &&& amount * m.total_lp_supply < (minted + 1) * m.total_liquidity
            &&& m2.total_lp_supply == m.total_lp_supply + minted
            &&& m2.total_liquidity == m.total_liquidity + amount
        }),
{
    let minted = (amount * m.total_lp_supply) / m.total_liquidity as int;
    let l = m.total_liquidity as int;
    lemma_fundamental_div_mod(amount * m.total_lp_supply, l);
    lemma_mod_division_less_than_divisor(amount * m.total_lp_supply, l);
    assert(minted * l == l * minted && (minted + 1) * l == l * minted + l) by (nonlinear_arith);
}

/// Splitting one deposit in two mints no more LP units in total than the
/// single combined deposit would: truncation drift from repeated small
/// deposits only ever favours the pool.
pub proof fn lemma_deposit_split_no_gain(m: Market, a1: u64, a2: u64)
    requires
        m.total_liquidity > 0,
        a1 + a2 <= u64::MAX,
        deposit_spec(m, a1) is Ok,
        deposit_spec(deposit_spec(m, a1)->Ok_0.0, a2) is Ok,
        deposit_spec(m, (a1 + a2) as u64) is Ok,
    ensures
        deposit_spec(m, a1)->Ok_0.1 + deposit_spec(deposit_spec(m, a1)->Ok_0.0, a2)->Ok_0.1
            <= deposit_spec(m, (a1 + a2) as u64)->Ok_0.1,
{
    let s = m.total_lp_supply as int;
    let l = m.total_liquidity as int;
    let m1 = (a1 * s) / l;
    let mid = deposit_spec(m, a1)->Ok_0.0;
    let s1 = s + m1;
    let l1 = l + a1;
    assert(mid.total_lp_supply == s1 && mid.total_liquidity == l1);
    let m2 = (a2 * s1) / l1;
    let combined = ((a1 + a2) * s) / l;

    // Floor brackets for the three quotients.
    lemma_fundamental_div_mod(a1 * s, l);
    lemma_mod_division_less_than_divisor(a1 * s, l);
    lemma_fundamental_div_mod(a2 * s1, l1);
    lemma_mod_division_less_than_divisor(a2 * s1, l1);
    lemma_fundamental_div_mod((a1 + a2) * s, l);
    lemma_mod_division_less_than_divisor((a1 + a2) * s, l);

    // m1 * l <= a1 * s, hence the pool's unit price has not fallen:
    // s1 * l <= s * l1.
    assert(m1 * l <= a1 * s) by (nonlinear_arith)
        requires
            a1 * s == l * m1 + (a1 * s) % l,
            (a1 * s) % l >= 0,
    ;
    assert(s1 * l <= s * l1) by (nonlinear_arith)
        requires
            s1 == s + m1,
            l1 == l + a1,
            m1 * l <= a1 * s,
    ;
    // m2 * l1 <= a2 * s1, so scaling through the price bound,
    // m2 * l <= a2 * s.
    assert(m2 * l1 <= a2 * s1) by (nonlinear_arith)
        requires
            a2 * s1 == l1 * m2 + (a2 * s1) % l1,
            (a2 * s1) % l1 >= 0,
    ;
    assert(m2 * l <= a2 * s) by (nonlinear_arith)
        requires
            m2 * l1 <= a2 * s1,
            s1 * l <= s * l1,
            l1 > 0,
            l > 0,
            a2 >= 0,
            m2 >= 0,
    ;
    // Summing the two bounds and dividing by l.
    assert((m1 + m2) * l <= (a1 + a2) * s) by (nonlinear_arith)
        requires
            m1 * l <= a1 * s,
            m2 * l <= a2 * s,
    ;
    assert(m1 + m2 <= combined) by (nonlinear_arith)
        requires
            (m1 + m2) * l <= (a1 + a2) * s,
            (a1 + a2) * s == l * combined + ((a1 + a2) * s) % l,
            ((a1 + a2) * s) % l < l,
            l > 0,
    ;
}

} // verus!
