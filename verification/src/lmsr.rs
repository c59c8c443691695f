//! The logarithmic market scoring rule (LMSR) pricing curve.
//!
//! The cost function is `C(yes, no) = b * ln(exp(yes/b) + exp(no/b))`,
//! evaluated in whole currency units and then scaled to smallest units. A buy
//! of `t` outcome tokens is charged the rounded difference
//! `C(after) - C(before)`, where `after` increments the bought side's
//! outstanding issuance by `t`.
//!
//! The exponential and the logarithm are evaluated by `rust_decimal`; every
//! other step is checked fixed-point arithmetic of [`crate::fixed`].

use vstd::prelude::*;
use rust_decimal::MathematicalOps;
use crate::errors::ErrorCode;
use crate::fixed::Fixed;
use crate::fixed::MAX_SCALE;
use crate::fixed::pow10;
use crate::fixed::pow10_i128;
use crate::fixed::div_spec;
use crate::fixed::add_spec;
use crate::fixed::sub_spec;
use crate::fixed::mul_spec;
use crate::fixed::round_spec;
use crate::fixed::checked_div;
use crate::fixed::checked_add;
use crate::fixed::checked_sub;
use crate::fixed::checked_mul;
use crate::fixed::round_to_int;
use crate::fixed::mul_pow10;
use crate::fixed::mul_pow10_spec;
use crate::BASE_UNIT_DECIMALS;

verus! {

/// What `rust_decimal` returns for the natural exponential of
/// `mantissa / 10^scale`, as a mantissa/scale pair; `None` where the input is
/// not representable or the series overflows. The result depends on the
/// arguments alone.
pub uninterp spec fn dec_exp(mantissa: i128, scale: u32) -> Option<(i128, u32)>;

/// What `rust_decimal` returns for the natural logarithm of
/// `mantissa / 10^scale`, as a mantissa/scale pair; `None` where the input is
/// not representable, zero or negative. The result depends on the arguments
/// alone.
pub uninterp spec fn dec_ln(mantissa: i128, scale: u32) -> Option<(i128, u32)>;

/// Relies on rust_decimal's `Decimal::try_from_i128_with_scale` followed by
/// `MathematicalOps::checked_exp` (feature `maths`): a deterministic
/// exponential with `None` on an unrepresentable argument or overflow, and a
/// result whose scale is at most `Decimal::MAX_SCALE`, which is 28.
#[verifier::external_body]
fn exp_fixed(mantissa: i128, scale: u32) -> (r: Option<Fixed>)
    ensures
        r matches Some(f) ==> dec_exp(mantissa, scale) == Some((f.mantissa, f.scale))
            && f.scale <= MAX_SCALE,
        r is None ==> dec_exp(mantissa, scale) is None,
{
    let d = rust_decimal::Decimal::try_from_i128_with_scale(mantissa, scale).ok()?;
    let e = d.checked_exp()?;
    Some(Fixed { mantissa: e.mantissa(), scale: e.scale() })
}

/// Relies on rust_decimal's `Decimal::try_from_i128_with_scale` followed by
/// `MathematicalOps::checked_ln` (feature `maths`): a deterministic natural
/// logarithm with `None` on an unrepresentable, zero or negative argument, and
/// a result whose scale is at most `Decimal::MAX_SCALE`, which is 28.
#[verifier::external_body]
fn ln_fixed(mantissa: i128, scale: u32) -> (r: Option<Fixed>)
    ensures
        r matches Some(f) ==> dec_ln(mantissa, scale) == Some((f.mantissa, f.scale))
            && f.scale <= MAX_SCALE,
        r is None ==> dec_ln(mantissa, scale) is None,
{
    let d = rust_decimal::Decimal::try_from_i128_with_scale(mantissa, scale).ok()?;
    let l = d.checked_ln()?;
    Some(Fixed { mantissa: l.mantissa(), scale: l.scale() })
}

/// The LMSR cost of the issuance state `(yes, no)`, in smallest currency
/// units as a fixed-point value: each step of
/// `b * ln(exp(yes/b) + exp(no/b))`, with the transcendental steps given by
/// [`dec_exp`] and [`dec_ln`] and the rest exact checked arithmetic.
pub open spec fn lmsr_cost_spec(b: u64, yes: u64, no: u64, decimals: u8) -> Result<
    Fixed,
    ErrorCode,
> {
    if decimals as u32 > MAX_SCALE {
        Err(ErrorCode::Overflow)
    } else {
        let b_fixed = Fixed { mantissa: b as i128, scale: 0u32 };
        let yes_whole = Fixed { mantissa: yes as i128, scale: decimals as u32 };
        let no_whole = Fixed { mantissa: no as i128, scale: decimals as u32 };
        match div_spec(yes_whole, b_fixed) {
            Err(e) => Err(e),
            Ok(xy) => match div_spec(no_whole, b_fixed) {
                Err(e) => Err(e),
                Ok(xn) => match dec_exp(xy.mantissa, xy.scale) {
                    None => Err(ErrorCode::Overflow),
                    Some(ey) => match dec_exp(xn.mantissa, xn.scale) {
                        None => Err(ErrorCode::Overflow),
                        Some(en) => match add_spec(
                            Fixed { mantissa: ey.0, scale: ey.1 },
                            Fixed { mantissa: en.0, scale: en.1 },
                        ) {
                            Err(e) => Err(e),
                            Ok(sum) => match dec_ln(sum.mantissa, sum.scale) {
                                None => Err(ErrorCode::Overflow),
                                Some(l) => match mul_spec(
                                    b_fixed,
                                    Fixed { mantissa: l.0, scale: l.1 },
                                ) {
                                    Err(e) => Err(e),
                                    Ok(cost_whole) => mul_pow10_spec(
                                        cost_whole,
                                        BASE_UNIT_DECIMALS,
                                    ),
                                },
                            },
                        },
                    },
                },
            },
        }
    }
}

/// Evaluates the LMSR cost function on an issuance state.
///
/// `b` is the liquidity parameter (a larger `b` gives a flatter price curve),
/// `yes` and `no` are the outstanding issued amounts of each side in smallest
/// token units, and `decimals` is the token's decimal scale. The result is in
/// smallest currency units. Fails with `DivisionByZero` when `b` is zero and
/// with `Overflow` when a conversion, a transcendental step or the final
/// scaling leaves the representable range.
pub fn calculate_lmsr(b: u64, yes: u64, no: u64, decimals: u8) -> (r: Result<Fixed, ErrorCode>)
    ensures
        r == lmsr_cost_spec(b, yes, no, decimals),
        r matches Ok(f) ==> f.wf(),
{
    if decimals as u32 > MAX_SCALE {
        return Err(ErrorCode::Overflow);
    }
    let b_fixed = Fixed::from_u64(b);
    let yes_whole = Fixed { mantissa: yes as i128, scale: decimals as u32 };
    let no_whole = Fixed { mantissa: no as i128, scale: decimals as u32 };
    let xy = match checked_div(yes_whole, b_fixed) {
        Ok(v) => v,
        Err(e) => {
            return Err(e);
        },
    };
    let xn = match checked_div(no_whole, b_fixed) {
        Ok(v) => v,
        Err(e) => {
            return Err(e);
        },
    };
    let ey = match exp_fixed(xy.mantissa, xy.scale) {
        Some(f) => f,
        None => {
            return Err(ErrorCode::Overflow);
        },
    };
    let en = match exp_fixed(xn.mantissa, xn.scale) {
        Some(f) => f,
        None => {
            return Err(ErrorCode::Overflow);
        },
    };
    let sum = match checked_add(ey, en) {
        Ok(v) => v,
        Err(e) => {
            return Err(e);
        },
    };
    let l = match ln_fixed(sum.mantissa, sum.scale) {
        Some(f) => f,
        None => {
            return Err(ErrorCode::Overflow);
        },
    };
    let cost_whole = match checked_mul(b_fixed, l) {
        Ok(v) => v,
        Err(e) => {
            return Err(e);
        },
    };
    mul_pow10(cost_whole, BASE_UNIT_DECIMALS)
}

/// The full quote of an LMSR buy: the issued token units and the currency
/// owed, or the error, for every input.
pub open spec fn lmsr_quote_spec(
    b: u64,
    curr_yes: u64,
    curr_no: u64,
    decimals: u8,
    tokens: u64,
    yes_side: bool,
) -> Result<(u64, u64), ErrorCode> {
    if tokens == 0 {
        Err(ErrorCode::AmountTooSmall)
    } else if pow10(decimals as nat) > u64::MAX {
        Err(ErrorCode::Overflow)
    } else if tokens * pow10(decimals as nat) > u64::MAX {
        Err(ErrorCode::Overflow)
    } else {
        let units = (tokens * pow10(decimals as nat)) as u64;
        let grown = if yes_side {
            curr_yes + units
        } else {
            curr_no + units
        };
        if grown > u64::MAX {
            Err(ErrorCode::Overflow)
        } else {
            let after_yes = if yes_side {
                grown as u64
            } else {
                curr_yes
            };
            let after_no = if yes_side {
                curr_no
            } else {
                grown as u64
            };
            match lmsr_cost_spec(b, curr_yes, curr_no, decimals) {
                Err(e) => Err(e),
                Ok(before) => match lmsr_cost_spec(b, after_yes, after_no, decimals) {
                    Err(e) => Err(e),
                    Ok(after) => match sub_spec(after, before) {
                        Err(e) => Err(e),
                        Ok(diff) => if diff.mantissa < 0 {
                            Err(ErrorCode::InvalidCalculation)
                        } else if round_spec(diff) > u64::MAX {
                            Err(ErrorCode::Overflow)
                        } else {
                            Ok((units, round_spec(diff) as u64))
                        },
                    },
                },
            }
        }
    }
}

/// `10^38` and neighbours written out; see [`crate::fixed::lemma_pow10_38`].
proof fn lemma_pow10_20()
    ensures
        pow10(19) == 10_000_000_000_000_000_000int,
        pow10(20) == 100_000_000_000_000_000_000int,
{
    reveal_with_fuel(pow10, 22);
}

/// `10^e` where it fits in a `u64`, and `None` where it does not.
fn pow10_u64(e: u32) -> (r: Option<u64>)
    ensures
        pow10(e as nat) <= u64::MAX ==> r == Some(pow10(e as nat) as u64),
        pow10(e as nat) > u64::MAX ==> r is None,
{
    if e > 19 {
        proof {
            crate::fixed::lemma_pow10_monotonic(20, e as nat);
            lemma_pow10_20();
        }
        return None;
    }
    let mut r: u64 = 1;
    let mut i: u32 = 0;
    while i < e
        invariant
            i <= e,
            e <= 19,
            r == pow10(i as nat),
        decreases e - i,
    {
        proof {
            crate::fixed::lemma_pow10_pos(i as nat);
            crate::fixed::lemma_pow10_monotonic((i + 1) as nat, 19);
            lemma_pow10_20();
            assert(pow10((i + 1) as nat) == 10 * pow10(i as nat));
        }
        r = r * 10;
        i = i + 1;
    }
    proof {
        crate::fixed::lemma_pow10_monotonic(e as nat, 19);
        lemma_pow10_20();
    }
    Some(r)
}

/// The currency owed for a successful LMSR buy is never negative: it is the
/// rounding of the cost function's growth across the buy, that growth itself
/// is non-negative, and a quote whose cost difference came out negative is
/// refused rather than paid out.
pub proof fn lemma_lmsr_cost_nonnegative(
    b: u64,
    curr_yes: u64,
    curr_no: u64,
    decimals: u8,
    tokens: u64,
    yes_side: bool,
)
    requires
        lmsr_quote_spec(b, curr_yes, curr_no, decimals, tokens, yes_side) is Ok,
    ensures
        ({
            let (units, cost) = lmsr_quote_spec(b, curr_yes, curr_no, decimals, tokens, yes_side)->Ok_0;
            let after_yes = if yes_side {
                (curr_yes + units) as u64
            } else {
                curr_yes
            };
            let after_no = if yes_side {
                curr_no
            } else {
                (curr_no + units) as u64
            };
            &&& lmsr_cost_spec(b, curr_yes, curr_no, decimals) is Ok
            &&& lmsr_cost_spec(b, after_yes, after_no, decimals) is Ok
            &&& sub_spec(
                lmsr_cost_spec(b, after_yes, after_no, decimals)->Ok_0,
                lmsr_cost_spec(b, curr_yes, curr_no, decimals)->Ok_0,
            ) is Ok
            &&& ({
                let diff = sub_spec(
                    lmsr_cost_spec(b, after_yes, after_no, decimals)->Ok_0,
                    lmsr_cost_spec(b, curr_yes, curr_no, decimals)->Ok_0,
                )->Ok_0;
                diff.mantissa >= 0 && cost == round_spec(diff) && round_spec(diff) >= 0
            })
        }),
{
    let before = lmsr_cost_spec(b, curr_yes, curr_no, decimals)->Ok_0;
    let (units, cost) = lmsr_quote_spec(b, curr_yes, curr_no, decimals, tokens, yes_side)->Ok_0;
    let after_yes = if yes_side {
        (curr_yes + units) as u64
    } else {
        curr_yes
    };
    let after_no = if yes_side {
        curr_no
    } else {
        (curr_no + units) as u64
    };
    let after = lmsr_cost_spec(b, after_yes, after_no, decimals)->Ok_0;
    let diff = sub_spec(after, before)->Ok_0;
    let p = pow10(diff.scale as nat);
    crate::fixed::lemma_pow10_pos(diff.scale as nat);
    vstd::arithmetic::div_mod::lemma_div_pos_is_pos(diff.mantissa as int, p);
}

/// A successful quote's issued units fit on the bought side's issuance
/// counter: the cost function was evaluated on the incremented issuance, so
/// the increment stayed within 64 bits.
pub proof fn lemma_quote_ok_fits(
    b: u64,
    curr_yes: u64,
    curr_no: u64,
    decimals: u8,
    tokens: u64,
    yes_side: bool,
)
    requires
        lmsr_quote_spec(b, curr_yes, curr_no, decimals, tokens, yes_side) is Ok,
    ensures
        ({
            let (units, cost) = lmsr_quote_spec(b, curr_yes, curr_no, decimals, tokens, yes_side)->Ok_0;
            &&& (yes_side ==> curr_yes + units <= u64::MAX)
            &&& (!yes_side ==> curr_no + units <= u64::MAX)
        }),
{
}

/// Quotes an LMSR buy.
///
/// `tokens` is the number of whole outcome tokens requested; the result is
/// the pair of the issued amount in smallest token units and the currency
/// owed in smallest currency units. The currency owed is never negative: a
/// negative cost difference is rejected as `InvalidCalculation` rather than
/// paid out.
pub fn quote_buy(
    b: u64,
    curr_yes: u64,
    curr_no: u64,
    decimals: u8,
    tokens: u64,
    yes_side: bool,
) -> (r: Result<(u64, u64), ErrorCode>)
    ensures
        r == lmsr_quote_spec(b, curr_yes, curr_no, decimals, tokens, yes_side),
{
    if tokens == 0 {
        return Err(ErrorCode::AmountTooSmall);
    }
    proof {
        crate::fixed::lemma_pow10_pos(decimals as nat);
    }
    let factor = match pow10_u64(decimals as u32) {
        Some(f) => f,
        None => {
            return Err(ErrorCode::Overflow);
        },
    };
    let units = match tokens.checked_mul(factor) {
        Some(u) => u,
        None => {
            return Err(ErrorCode::Overflow);
        },
    };
    let grown = if yes_side {
        curr_yes.checked_add(units)
    } else {
        curr_no.checked_add(units)
    };
    let grown = match grown {
        Some(v) => v,
        None => {
            return Err(ErrorCode::Overflow);
        },
    };
    let after_yes = if yes_side {
        grown
    } else {
        curr_yes
    };
    let after_no = if yes_side {
        curr_no
    } else {
        grown
    };
    let before = match calculate_lmsr(b, curr_yes, curr_no, decimals) {
        Ok(v) => v,
        Err(e) => {
            return Err(e);
        },
    };
    let after = match calculate_lmsr(b, after_yes, after_no, decimals) {
        Ok(v) => v,
        Err(e) => {
            return Err(e);
        },
    };
    let diff = match checked_sub(after, before) {
        Ok(v) => v,
        Err(e) => {
            return Err(e);
        },
    };
    if diff.mantissa < 0 {
        return Err(ErrorCode::InvalidCalculation);
    }
    let rounded = round_to_int(diff);
    if rounded > u64::MAX as i128 {
        return Err(ErrorCode::Overflow);
    }
    Ok((units, rounded as u64))
}

} // verus!
