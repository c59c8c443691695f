//! The constant-product pricing curve.
//!
//! A buy of one side pays `amount_in` currency units into the opposing
//! reserve; the bought side's reserve is then re-derived from the invariant
//! product of the two reserves, and the difference is issued to the buyer.
//! Integer division truncates, so the re-derived reserve never exceeds the
//! exact value and the product can only shrink by the truncation remainder.

use vstd::prelude::*;
use vstd::arithmetic::div_mod::lemma_fundamental_div_mod;
use vstd::arithmetic::div_mod::lemma_mod_division_less_than_divisor;
use crate::errors::ErrorCode;

verus! {

/// The outcome of a constant-product buy: the two reserves after the trade
/// and the outcome tokens issued for it.
#[derive(Clone, Copy, Debug, PartialEq, Eq, Structural)]
pub struct CpQuote {
    pub new_yes_pool: u64,
    pub new_no_pool: u64,
    pub tokens_out: u64,
}

/// The full outcome of a constant-product buy, for every input.
///
/// The opposing reserve grows by `amount_in`; the bought side's reserve
/// becomes the old product divided (truncating) by the grown reserve; the
/// difference of the bought side's old and new reserve is issued. Growing the
/// reserve beyond 64 bits is `Overflow`, a zero divisor is `DivisionByZero`,
/// and a re-derived reserve above the old one is `InvalidCalculation`.
pub open spec fn cp_quote_spec(yes_pool: u64, no_pool: u64, amount_in: u64, buy_yes: bool) -> Result<
    CpQuote,
    ErrorCode,
> {
    let product = yes_pool * no_pool;
    let old_same = if buy_yes {
        yes_pool
    } else {
        no_pool
    };
    let old_opposing = if buy_yes {
        no_pool
    } else {
        yes_pool
    };
    if old_opposing + amount_in > u64::MAX {
        Err(ErrorCode::Overflow)
    } else if old_opposing + amount_in == 0 {
        Err(ErrorCode::DivisionByZero)
    } else {
        let new_opposing = (old_opposing + amount_in) as u64;
        let new_same = product / new_opposing as int;
        if new_same > old_same {
            Err(ErrorCode::InvalidCalculation)
        } else if buy_yes {
            Ok(CpQuote {
                new_yes_pool: new_same as u64,
                new_no_pool: new_opposing,
                tokens_out: (old_same - new_same) as u64,
            })
        } else {
            Ok(CpQuote {
                new_yes_pool: new_opposing,
                new_no_pool: new_same as u64,
                tokens_out: (old_same - new_same) as u64,
            })
        }
    }
}

/// Quotes a constant-product buy of `amount_in` currency units on the given
/// side of the reserves `(yes_pool, no_pool)`.
pub fn quote_buy(yes_pool: u64, no_pool: u64, amount_in: u64, buy_yes: bool) -> (r: Result<
    CpQuote,
    ErrorCode,
>)
    ensures
        r == cp_quote_spec(yes_pool, no_pool, amount_in, buy_yes),
{
    proof {
        assert(yes_pool * no_pool <= u64::MAX * u64::MAX) by (nonlinear_arith)
            requires
                yes_pool <= u64::MAX,
                no_pool <= u64::MAX,
        ;
    }
    let product = (yes_pool as u128) * (no_pool as u128);
    let old_same = if buy_yes {
        yes_pool
    } else {
        no_pool
    };
    let old_opposing = if buy_yes {
        no_pool
    } else {
        yes_pool
    };
    let new_opposing = match old_opposing.checked_add(amount_in) {
        Some(v) => v,
        None => {
            return Err(ErrorCode::Overflow);
        },
    };
    if new_opposing == 0 {
        return Err(ErrorCode::DivisionByZero);
    }
    let new_same_wide = product / (new_opposing as u128);
    if new_same_wide > old_same as u128 {
        return Err(ErrorCode::InvalidCalculation);
    }
    let new_same = new_same_wide as u64;
    if buy_yes {
        Ok(CpQuote {
            new_yes_pool: new_same,
            new_no_pool: new_opposing,
            tokens_out: old_same - new_same,
        })
    } else {
        Ok(CpQuote {
            new_yes_pool: new_opposing,
            new_no_pool: new_same,
            tokens_out: old_same - new_same,
        })
    }
}

/// Along a constant-product buy the product of the reserves never grows, and
/// it shrinks only by the remainder that integer truncation discards, which
/// stays below the grown opposing reserve: the rounding loss always stays in
/// the pool, and a trade never leaves the curve by more than one opposing
/// unit's worth.
pub proof fn lemma_cp_preserves_product(yes_pool: u64, no_pool: u64, amount_in: u64, buy_yes: bool)
    requires
        cp_quote_spec(yes_pool, no_pool, amount_in, buy_yes) is Ok,
    ensures
        ({
            let q = cp_quote_spec(yes_pool, no_pool, amount_in, buy_yes)->Ok_0;
            let new_opposing = if buy_yes {
                q.new_no_pool
            } else {
                q.new_yes_pool
            };
            &&& q.new_yes_pool * q.new_no_pool <= yes_pool * no_pool
            &&& yes_pool * no_pool - q.new_yes_pool * q.new_no_pool == (yes_pool * no_pool) % (
            new_opposing as int)
            &&& yes_pool * no_pool - q.new_yes_pool * q.new_no_pool < new_opposing
        }),
{
    let q = cp_quote_spec(yes_pool, no_pool, amount_in, buy_yes)->Ok_0;
    let product = yes_pool * no_pool;
    let old_opposing: int = if buy_yes {
        no_pool as int
    } else {
        yes_pool as int
    };
    let new_opposing = old_opposing + amount_in;
    let new_same = product / new_opposing;
    assert(product >= 0) by (nonlinear_arith)
        requires
            product == yes_pool * no_pool,
    ;
    lemma_fundamental_div_mod(product, new_opposing);
    lemma_mod_division_less_than_divisor(product, new_opposing);
    assert(q.new_yes_pool * q.new_no_pool == new_same * new_opposing) by (nonlinear_arith)
        requires
            (buy_yes ==> q.new_yes_pool == new_same && q.new_no_pool == new_opposing),
            (!buy_yes ==> q.new_no_pool == new_same && q.new_yes_pool == new_opposing),
    ;
}

} // verus!
