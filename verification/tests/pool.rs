use sportsxchange::errors::ErrorCode;
use sportsxchange::pool::{
    calculate_amount_out, create_market, initialize_pool, resolve_market, swap_away_for_home,
    swap_home_for_away, TeamSide,
};

fn sample_market() -> sportsxchange::pool::Market {
    create_market(
        7,
        String::from("LAL-BOS-20240101"),
        String::from("Lakers"),
        String::from("Celtics"),
        101,
        102,
    )
}

#[test]
fn quote_standard_scenario() {
    // floor(1_000_000 * 10_000 / 1_010_000) == 9_900
    assert_eq!(calculate_amount_out(10_000, 1_000_000, 1_000_000), Ok(9_900));
}

#[test]
fn quote_zero_input_is_noop() {
    assert_eq!(calculate_amount_out(0, 1_000_000, 1_000_000), Ok(0));
}

#[test]
fn quote_never_drains_reserve_out() {
    // even an enormous input leaves the output reserve short of empty
    let out = calculate_amount_out(u64::MAX - 1, 1, 1_000_000).unwrap();
    assert!(out < 1_000_000);
    let out = calculate_amount_out(1_000_000_000, 5, 7).unwrap();
    assert!(out < 7);
}

#[test]
fn quote_monotonic_in_amount_in() {
    let mut last = 0u64;
    for amount_in in [1u64, 10, 100, 1_000, 10_000, 100_000, 1_000_000] {
        let out = calculate_amount_out(amount_in, 1_000_000, 1_000_000).unwrap();
        assert!(out >= last);
        last = out;
    }
}

#[test]
fn quote_overflow_near_u64_max() {
    // reserve_in + amount_in leaves the 64-bit range: error, never a wrap
    assert_eq!(
        calculate_amount_out(2, u64::MAX - 1, 50),
        Err(ErrorCode::MathOverflow)
    );
    assert_eq!(
        calculate_amount_out(u64::MAX, u64::MAX, u64::MAX),
        Err(ErrorCode::MathOverflow)
    );
    // the boundary itself still fits
    assert_eq!(calculate_amount_out(1, u64::MAX - 1, 50), Ok(0));
}

#[test]
fn quote_zero_denominator_is_overflow_error() {
    assert_eq!(calculate_amount_out(0, 0, 50), Err(ErrorCode::MathOverflow));
}

#[test]
fn initialize_pool_sets_reserves_and_activates() {
    let mut market = sample_market();
    let pool = initialize_pool(&mut market, 1, 11, 12, 1_000_000, 1_000_000).unwrap();
    assert!(market.is_active);
    assert_eq!(pool.home_reserve, 1_000_000);
    assert_eq!(pool.away_reserve, 1_000_000);
    assert_eq!(pool.constant_k, 1_000_000_000_000);
    assert_eq!(pool.market, 1);
    assert_eq!(pool.home_vault, 11);
    assert_eq!(pool.away_vault, 12);
}

#[test]
fn initialize_pool_overflowing_constant_fails() {
    let mut market = sample_market();
    let r = initialize_pool(&mut market, 1, 11, 12, u64::MAX, 2);
    assert_eq!(r.unwrap_err(), ErrorCode::MathOverflow);
    assert!(!market.is_active);
}

#[test]
fn swap_scenario_updates_reserves() {
    let mut market = sample_market();
    let mut pool = initialize_pool(&mut market, 1, 11, 12, 1_000_000, 1_000_000).unwrap();
    let event = swap_home_for_away(&market, &mut pool, 55, 10_000, 0).unwrap();
    assert_eq!(event.amount_in, 10_000);
    assert_eq!(event.amount_out, 9_900);
    assert_eq!(event.user, 55);
    assert_eq!(event.token_in, 101);
    assert_eq!(event.token_out, 102);
    assert_eq!(pool.home_reserve, 1_010_000);
    assert_eq!(pool.away_reserve, 990_100);
    assert_eq!(event.home_reserve, 1_010_000);
    assert_eq!(event.away_reserve, 990_100);
}

#[test]
fn swap_round_trip_never_profits() {
    let mut market = sample_market();
    let mut pool = initialize_pool(&mut market, 1, 11, 12, 1_000_000, 1_000_000).unwrap();
    let first = swap_home_for_away(&market, &mut pool, 55, 10_000, 0).unwrap();
    let second = swap_away_for_home(&market, &mut pool, 55, first.amount_out, 0).unwrap();
    assert_eq!(second.amount_out, 9_999);
    assert!(second.amount_out <= 10_000);
    // reserves are back within the starting totals
    assert_eq!(pool.away_reserve, 1_000_000);
    assert_eq!(pool.home_reserve, 1_000_001);
}

#[test]
fn swap_slippage_rejected_without_state_change() {
    let mut market = sample_market();
    let mut pool = initialize_pool(&mut market, 1, 11, 12, 1_000_000, 1_000_000).unwrap();
    let r = swap_home_for_away(&market, &mut pool, 55, 10_000, 9_901);
    assert_eq!(r.unwrap_err(), ErrorCode::SlippageExceeded);
    assert_eq!(pool.home_reserve, 1_000_000);
    assert_eq!(pool.away_reserve, 1_000_000);
}

#[test]
fn swap_away_direction_mirrors_home() {
    let mut market = sample_market();
    let mut pool = initialize_pool(&mut market, 1, 11, 12, 2_000_000, 1_000_000).unwrap();
    let event = swap_away_for_home(&market, &mut pool, 55, 10_000, 0).unwrap();
    // floor(2_000_000 * 10_000 / 1_010_000) == 19_801
    assert_eq!(event.amount_out, 19_801);
    assert_eq!(event.token_in, 102);
    assert_eq!(event.token_out, 101);
    assert_eq!(pool.away_reserve, 1_010_000);
    assert_eq!(pool.home_reserve, 1_980_199);
}

#[test]
fn resolve_market_requires_active() {
    let mut market = sample_market();
    let r = resolve_market(&mut market, 1, TeamSide::Home);
    assert_eq!(r.unwrap_err(), ErrorCode::MarketNotActive);
    assert_eq!(market.winner, None);
}

#[test]
fn resolve_market_sets_winner_once() {
    let mut market = sample_market();
    initialize_pool(&mut market, 1, 11, 12, 10, 10).unwrap();
    let event = resolve_market(&mut market, 1, TeamSide::Away).unwrap();
    assert_eq!(event.winner, TeamSide::Away);
    assert_eq!(event.game_id, "LAL-BOS-20240101");
    assert_eq!(market.winner, Some(TeamSide::Away));
    assert!(!market.is_active);
    // a second resolution is rejected: the market is no longer active
    let r = resolve_market(&mut market, 1, TeamSide::Home);
    assert_eq!(r.unwrap_err(), ErrorCode::MarketNotActive);
}

#[test]
fn resolve_market_rejects_already_resolved_state() {
    let mut market = sample_market();
    market.is_active = true;
    market.winner = Some(TeamSide::Home);
    let r = resolve_market(&mut market, 1, TeamSide::Away);
    assert_eq!(r.unwrap_err(), ErrorCode::MarketAlreadyResolved);
    assert_eq!(market.winner, Some(TeamSide::Home));
}

#[test]
fn swap_never_shrinks_reserve_product() {
    let mut market = sample_market();
    let mut pool = initialize_pool(&mut market, 1, 11, 12, 1_000_000, 1_000_000).unwrap();
    let before = (pool.home_reserve as u128) * (pool.away_reserve as u128);
    swap_home_for_away(&market, &mut pool, 55, 123_457, 0).unwrap();
    let after = (pool.home_reserve as u128) * (pool.away_reserve as u128);
    assert!(after >= before);
    assert!(after >= pool.constant_k as u128);
}
