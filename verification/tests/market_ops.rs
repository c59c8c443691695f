use eventum::errors::ErrorCode;
use eventum::market::Curve;
use eventum::market::Market;
use eventum::market::add_liquidity;
use eventum::market::buy_outcomes;
use eventum::market::claim_winnings;
use eventum::market::initialize_market;
use eventum::market::resolve_market;
use eventum::market::withdraw_liquidity;

fn fresh_cp_market() -> Market {
    initialize_market(
        1,
        2,
        7,
        100,
        200,
        30,
        "will it rain tomorrow".to_string(),
        Curve::ConstantProduct,
    )
    .unwrap()
}

#[test]
fn initialize_sets_fresh_state() {
    let m = fresh_cp_market();
    assert!(m.is_active);
    assert!(!m.resolved);
    assert!(!m.winning_outcome);
    assert_eq!(m.creator, 1);
    assert_eq!(m.oracle_authority, 2);
    assert_eq!(m.unique_market_id, 7);
    assert_eq!(m.start_time, 100);
    assert_eq!(m.end_time, 200);
    assert_eq!(m.fee_bps, 30);
    assert_eq!(m.total_liquidity, 0);
    assert_eq!(m.total_lp_supply, 0);
    assert_eq!(m.yes_pool, 0);
    assert_eq!(m.no_pool, 0);
    assert_eq!(m.yes_tokens, 0);
    assert_eq!(m.no_tokens, 0);
}

#[test]
fn initialize_rejects_bad_duration() {
    let r = initialize_market(1, 2, 7, 200, 200, 0, "q".to_string(), Curve::ConstantProduct);
    assert_eq!(r.unwrap_err(), ErrorCode::InvalidDuration);
    let r = initialize_market(1, 2, 7, 200, 100, 0, "q".to_string(), Curve::ConstantProduct);
    assert_eq!(r.unwrap_err(), ErrorCode::InvalidDuration);
}

#[test]
fn genesis_deposit_seeds_pools() {
    let mut m = fresh_cp_market();
    let minted = add_liquidity(&mut m, 100).unwrap();
    assert_eq!(minted, 100);
    assert_eq!(m.yes_pool, 50);
    assert_eq!(m.no_pool, 50);
    assert_eq!(m.total_liquidity, 100);
    assert_eq!(m.total_lp_supply, 100);
}

#[test]
fn deposit_zero_fails() {
    let mut m = fresh_cp_market();
    assert_eq!(add_liquidity(&mut m, 0).unwrap_err(), ErrorCode::ZeroTokenMint);
    assert_eq!(m.total_liquidity, 0);
}

#[test]
fn deposit_mints_proportionally() {
    let mut m = fresh_cp_market();
    add_liquidity(&mut m, 100).unwrap();
    // 100 LP units out for 100 in the pool: 40 more mints 40.
    let minted = add_liquidity(&mut m, 40).unwrap();
    assert_eq!(minted, 40);
    assert_eq!(m.total_liquidity, 140);
    assert_eq!(m.total_lp_supply, 140);
}

#[test]
fn deposit_proportional_truncates_toward_pool() {
    // A pool whose LP supply is below its liquidity: 10 in on 100/33 mints
    // floor(10 * 33 / 100) = 3.
    let mut m = fresh_cp_market();
    m.total_liquidity = 100;
    m.total_lp_supply = 33;
    let minted = add_liquidity(&mut m, 10).unwrap();
    assert_eq!(minted, 3);
    assert_eq!(m.total_liquidity, 110);
    assert_eq!(m.total_lp_supply, 36);
}

#[test]
fn split_deposit_never_beats_combined() {
    let mut split = fresh_cp_market();
    split.total_liquidity = 100;
    split.total_lp_supply = 33;
    let m1 = add_liquidity(&mut split, 5).unwrap();
    let m2 = add_liquidity(&mut split, 5).unwrap();

    let mut combined = fresh_cp_market();
    combined.total_liquidity = 100;
    combined.total_lp_supply = 33;
    let m = add_liquidity(&mut combined, 10).unwrap();

    assert_eq!(m1, 1);
    assert_eq!(m2, 1);
    assert_eq!(m, 3);
    assert!(m1 + m2 <= m);
}

#[test]
fn deposit_overflow_leaves_market_unchanged() {
    let mut m = fresh_cp_market();
    add_liquidity(&mut m, u64::MAX).unwrap();
    let before = m.clone();
    assert_eq!(add_liquidity(&mut m, 1).unwrap_err(), ErrorCode::Overflow);
    assert_eq!(m, before);
}

#[test]
fn constant_product_buy_scenario() {
    // Genesis deposit of 100: pools 50/50, LP supply 100. A buy of 10 on
    // YES: product 2500, no pool 60, yes pool 2500/60 = 41, 9 tokens out.
    let mut m = fresh_cp_market();
    add_liquidity(&mut m, 100).unwrap();
    let (issued, cost) = buy_outcomes(&mut m, 10, true).unwrap();
    assert_eq!(issued, 9);
    assert_eq!(cost, 10);
    assert_eq!(m.no_pool, 60);
    assert_eq!(m.yes_pool, 41);
    assert_eq!(m.yes_tokens, 9);
    assert_eq!(m.no_tokens, 0);

    // The identical buy on a fresh market reproduces the same numbers.
    let mut m2 = fresh_cp_market();
    add_liquidity(&mut m2, 100).unwrap();
    let (issued2, cost2) = buy_outcomes(&mut m2, 10, true).unwrap();
    assert_eq!((issued2, cost2), (issued, cost));
    assert_eq!(m2, m);
}

#[test]
fn constant_product_buy_no_side() {
    let mut m = fresh_cp_market();
    add_liquidity(&mut m, 100).unwrap();
    let (issued, cost) = buy_outcomes(&mut m, 10, false).unwrap();
    assert_eq!(issued, 9);
    assert_eq!(cost, 10);
    assert_eq!(m.yes_pool, 60);
    assert_eq!(m.no_pool, 41);
    assert_eq!(m.no_tokens, 9);
    assert_eq!(m.yes_tokens, 0);
}

#[test]
fn product_never_grows_across_buys() {
    let mut m = fresh_cp_market();
    add_liquidity(&mut m, 1000).unwrap();
    let mut product = (m.yes_pool as u128) * (m.no_pool as u128);
    for i in 0..20u64 {
        buy_outcomes(&mut m, 7 + i % 5, i % 2 == 0).unwrap();
        let next = (m.yes_pool as u128) * (m.no_pool as u128);
        assert!(next <= product);
        product = next;
    }
}

#[test]
fn buy_gates() {
    let mut m = fresh_cp_market();
    assert_eq!(buy_outcomes(&mut m, 10, true).unwrap_err(), ErrorCode::NoLiquidity);
    add_liquidity(&mut m, 100).unwrap();
    assert_eq!(buy_outcomes(&mut m, 0, true).unwrap_err(), ErrorCode::AmountTooSmall);
    m.is_active = false;
    assert_eq!(buy_outcomes(&mut m, 10, true).unwrap_err(), ErrorCode::MarketNotActive);
    m.is_active = true;
    resolve_market(&mut m, 2, true).unwrap();
    assert_eq!(buy_outcomes(&mut m, 10, true).unwrap_err(), ErrorCode::MarketResolved);
}

#[test]
fn resolve_twice_fails_and_keeps_state() {
    let mut m = fresh_cp_market();
    resolve_market(&mut m, 2, true).unwrap();
    assert!(m.resolved);
    assert!(m.winning_outcome);
    let before = m.clone();
    assert_eq!(resolve_market(&mut m, 2, false).unwrap_err(), ErrorCode::AlreadyResolved);
    assert_eq!(m, before);
}

#[test]
fn resolve_requires_oracle() {
    let mut m = fresh_cp_market();
    let before = m.clone();
    assert_eq!(resolve_market(&mut m, 99, true).unwrap_err(), ErrorCode::OracleNotMatched);
    assert_eq!(m, before);
    assert!(resolve_market(&mut m, 2, false).is_ok());
    assert!(m.resolved);
    assert!(!m.winning_outcome);
}

#[test]
fn claim_before_resolve_fails() {
    let m = fresh_cp_market();
    assert_eq!(claim_winnings(&m, 0, 0, 500).unwrap_err(), ErrorCode::MarketNotResolved);
}

#[test]
fn claim_with_no_winning_units_fails() {
    let mut m = fresh_cp_market();
    m.yes_tokens = 1000;
    m.no_tokens = 1000;
    resolve_market(&mut m, 2, true).unwrap();
    // Holding only NO units when YES won is no winnings.
    assert_eq!(claim_winnings(&m, 0, 100, 500).unwrap_err(), ErrorCode::NoWinnings);
}

#[test]
fn claim_pays_pro_rata_and_burns_holding() {
    // YES wins with 1000 issued and a vault of 500: 100 units pay 50 and the
    // whole holding is burned.
    let mut m = fresh_cp_market();
    m.yes_tokens = 1000;
    resolve_market(&mut m, 2, true).unwrap();
    let (payout, burned) = claim_winnings(&m, 100, 0, 500).unwrap();
    assert_eq!(payout, 50);
    assert_eq!(burned, 100);
}

#[test]
fn claim_no_side_wins() {
    let mut m = fresh_cp_market();
    m.no_tokens = 400;
    resolve_market(&mut m, 2, false).unwrap();
    let (payout, burned) = claim_winnings(&m, 0, 100, 900).unwrap();
    assert_eq!(payout, 225);
    assert_eq!(burned, 100);
}

#[test]
fn claims_together_never_overdraw_vault() {
    // Two holders of the whole winning issuance against an oddly sized
    // vault: truncation keeps the sum within the vault.
    let mut m = fresh_cp_market();
    m.yes_tokens = 1000;
    resolve_market(&mut m, 2, true).unwrap();
    let (p1, _) = claim_winnings(&m, 300, 0, 501).unwrap();
    let (p2, _) = claim_winnings(&m, 700, 0, 501).unwrap();
    assert_eq!(p1, 150);
    assert_eq!(p2, 350);
    assert!(p1 + p2 <= 501);
}

#[test]
fn withdraw_pays_proportional_share() {
    let mut m = fresh_cp_market();
    add_liquidity(&mut m, 100).unwrap();
    let amount = withdraw_liquidity(&mut m, 40).unwrap();
    assert_eq!(amount, 40);
    assert_eq!(m.total_liquidity, 60);
    assert_eq!(m.total_lp_supply, 60);
}

#[test]
fn withdraw_gates() {
    let mut m = fresh_cp_market();
    add_liquidity(&mut m, 100).unwrap();
    assert_eq!(withdraw_liquidity(&mut m, 0).unwrap_err(), ErrorCode::ZeroTokenBurn);
    assert_eq!(
        withdraw_liquidity(&mut m, 101).unwrap_err(),
        ErrorCode::ExcessiveLiquidityRemoval
    );
    assert_eq!(m.total_liquidity, 100);
    assert_eq!(m.total_lp_supply, 100);
}
