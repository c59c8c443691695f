use eventum::constant_product;
use eventum::errors::ErrorCode;
use eventum::fixed;
use eventum::fixed::Fixed;
use eventum::lmsr;
use eventum::market::Curve;
use eventum::market::add_liquidity;
use eventum::market::buy_outcomes;
use eventum::market::initialize_market;
use eventum::to_base_units;
use rust_decimal::Decimal;
use rust_decimal::MathematicalOps;
use rust_decimal::prelude::ToPrimitive;

#[test]
fn base_unit_conversion() {
    assert_eq!(to_base_units(0).unwrap(), 0);
    assert_eq!(to_base_units(3).unwrap(), 3_000_000_000);
    assert_eq!(to_base_units(18_446_744_073).unwrap(), 18_446_744_073_000_000_000);
    assert_eq!(to_base_units(18_446_744_074).unwrap_err(), ErrorCode::Overflow);
    assert_eq!(to_base_units(u64::MAX).unwrap_err(), ErrorCode::Overflow);
}

#[test]
fn fixed_add_aligns_scales() {
    // 1.5 + 0.25 = 1.75
    let a = Fixed { mantissa: 15, scale: 1 };
    let b = Fixed { mantissa: 25, scale: 2 };
    let r = fixed::checked_add(a, b).unwrap();
    assert_eq!(r, Fixed { mantissa: 175, scale: 2 });
}

#[test]
fn fixed_sub_exact() {
    // 2.0 - 0.75 = 1.25
    let a = Fixed { mantissa: 2, scale: 0 };
    let b = Fixed { mantissa: 75, scale: 2 };
    let r = fixed::checked_sub(a, b).unwrap();
    assert_eq!(r, Fixed { mantissa: 125, scale: 2 });
}

#[test]
fn fixed_mul_exact() {
    // 1.5 * 0.25 = 0.375
    let a = Fixed { mantissa: 15, scale: 1 };
    let b = Fixed { mantissa: 25, scale: 2 };
    let r = fixed::checked_mul(a, b).unwrap();
    assert_eq!(r, Fixed { mantissa: 375, scale: 3 });
}

#[test]
fn fixed_mul_overflow() {
    let a = Fixed { mantissa: i128::MAX, scale: 0 };
    let b = Fixed { mantissa: 2, scale: 0 };
    assert_eq!(fixed::checked_mul(a, b).unwrap_err(), ErrorCode::Overflow);
}

#[test]
fn fixed_div_truncates_at_max_scale() {
    // 1 / 8 = 0.125 at scale 28.
    let a = Fixed { mantissa: 1, scale: 0 };
    let b = Fixed { mantissa: 8, scale: 0 };
    let r = fixed::checked_div(a, b).unwrap();
    assert_eq!(r, Fixed { mantissa: 1_250_000_000_000_000_000_000_000_000, scale: 28 });
    // 1 / 3 truncates.
    let c = Fixed { mantissa: 3, scale: 0 };
    let r = fixed::checked_div(a, c).unwrap();
    assert_eq!(r, Fixed { mantissa: 3_333_333_333_333_333_333_333_333_333, scale: 28 });
}

#[test]
fn fixed_div_by_zero() {
    let a = Fixed { mantissa: 1, scale: 0 };
    let z = Fixed { mantissa: 0, scale: 5 };
    assert_eq!(fixed::checked_div(a, z).unwrap_err(), ErrorCode::DivisionByZero);
}

#[test]
fn fixed_round_nearest_ties_even() {
    let cases: [(i128, u32, i128); 8] = [
        (24, 1, 2),  // 2.4 -> 2
        (26, 1, 3),  // 2.6 -> 3
        (25, 1, 2),  // 2.5 -> 2 (even)
        (35, 1, 4),  // 3.5 -> 4 (even)
        (5, 1, 0),   // 0.5 -> 0 (even)
        (15, 1, 2),  // 1.5 -> 2 (even)
        (7, 0, 7),   // whole values stay
        (0, 9, 0),
    ];
    for (mantissa, scale, expected) in cases {
        assert_eq!(fixed::round_to_int(Fixed { mantissa, scale }), expected);
    }
}

#[test]
fn cp_quote_matches_worked_example() {
    let q = constant_product::quote_buy(50, 50, 10, true).unwrap();
    assert_eq!(q.new_yes_pool, 41);
    assert_eq!(q.new_no_pool, 60);
    assert_eq!(q.tokens_out, 9);
}

#[test]
fn cp_quote_overflow_and_zero_pool() {
    assert_eq!(
        constant_product::quote_buy(50, u64::MAX, 1, true).unwrap_err(),
        ErrorCode::Overflow
    );
    assert_eq!(
        constant_product::quote_buy(0, 0, 0, true).unwrap_err(),
        ErrorCode::DivisionByZero
    );
}

/// The LMSR cost function evaluated directly with rust_decimal, in smallest
/// currency units.
fn reference_cost(b: u64, yes: u64, no: u64, decimals: u8) -> Decimal {
    let factor = Decimal::from(10u64.pow(decimals as u32));
    let b_dec = Decimal::from(b);
    let ey = (Decimal::from(yes) / factor / b_dec).checked_exp().unwrap();
    let en = (Decimal::from(no) / factor / b_dec).checked_exp().unwrap();
    let ln = (ey + en).checked_ln().unwrap();
    b_dec * ln * Decimal::from(1_000_000_000u64)
}

#[test]
fn lmsr_quote_tracks_cost_function() {
    // Buy 10 whole tokens on YES against 1000/500 outstanding issuance.
    let b = 1000;
    let decimals = 9;
    let curr_yes = 1_000_000_000_000; // 1000 whole tokens
    let curr_no = 500_000_000_000; // 500 whole tokens
    let (issued, cost) = lmsr::quote_buy(b, curr_yes, curr_no, decimals, 10, true).unwrap();
    assert_eq!(issued, 10_000_000_000);

    let before = reference_cost(b, curr_yes, curr_no, decimals);
    let after = reference_cost(b, curr_yes + issued, curr_no, decimals);
    let expected = (after - before).round().to_u64().unwrap();
    // The engine truncates division at 28 fractional digits where
    // rust_decimal rounds to 28 significant digits, so the two rounded costs
    // may differ by at most one smallest unit.
    assert!(cost.abs_diff(expected) <= 1, "cost {cost} vs reference {expected}");
    // Buying around the half-way mark costs close to half a currency unit
    // per token: ~5 of 10e9 units here.
    assert!(cost > 4_000_000_000 && cost < 7_000_000_000, "cost {cost}");
}

#[test]
fn lmsr_cost_is_nonnegative_and_deterministic() {
    let (_, cost1) = lmsr::quote_buy(1000, 0, 0, 9, 1, true).unwrap();
    let (_, cost2) = lmsr::quote_buy(1000, 0, 0, 9, 1, true).unwrap();
    assert_eq!(cost1, cost2);
    // Around 0.5 whole units for the first token of an empty market.
    assert!(cost1 > 400_000_000 && cost1 < 600_000_000, "cost {cost1}");
}

#[test]
fn lmsr_quote_gates() {
    assert_eq!(
        lmsr::quote_buy(1000, 0, 0, 9, 0, true).unwrap_err(),
        ErrorCode::AmountTooSmall
    );
    assert_eq!(
        lmsr::quote_buy(0, 0, 0, 9, 1, true).unwrap_err(),
        ErrorCode::DivisionByZero
    );
    assert_eq!(
        lmsr::quote_buy(1000, 0, 0, 20, 1, true).unwrap_err(),
        ErrorCode::Overflow
    );
    assert_eq!(
        lmsr::quote_buy(1000, u64::MAX, 0, 9, 1, true).unwrap_err(),
        ErrorCode::Overflow
    );
}

#[test]
fn lmsr_market_buy_updates_issuance() {
    let mut m = initialize_market(
        1,
        2,
        7,
        100,
        200,
        0,
        "q".to_string(),
        Curve::Lmsr { b: 1000, decimals: 9 },
    )
    .unwrap();
    add_liquidity(&mut m, 1_000_000_000).unwrap();
    let (issued, cost) = buy_outcomes(&mut m, 5, true).unwrap();
    assert_eq!(issued, 5_000_000_000);
    assert_eq!(m.yes_tokens, 5_000_000_000);
    assert_eq!(m.no_tokens, 0);
    let expected = (reference_cost(1000, issued, 0, 9) - reference_cost(1000, 0, 0, 9))
        .round()
        .to_u64()
        .unwrap();
    assert!(cost.abs_diff(expected) <= 1, "cost {cost} vs reference {expected}");
}
