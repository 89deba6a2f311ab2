use sportsxchange::curve::{
    buy_on_curve, calculate_price, calculate_tokens_out, calculate_usdc_out, claim_winnings,
    create_market_v2, halt_trading, resolve_market, sell_on_curve, TradeAction,
};
use sportsxchange::errors::ErrorCode;

fn sample_market(k: u64, n: u64) -> sportsxchange::curve::MarketV2 {
    create_market_v2(
        7,
        String::from("NYK-MIA-20240215"),
        String::from("Knicks"),
        String::from("Heat"),
        201,
        202,
        203,
        k,
        n,
    )
}

#[test]
fn price_at_zero_supply_is_k() {
    assert_eq!(calculate_price(0, 1_000_000_000, 100), Ok(1_000_000_000));
    assert_eq!(calculate_price(0, 42, 150), Ok(42));
}

#[test]
fn price_exact_values_on_unit_curve() {
    // k = 1.0 scaled, n = exponent 1.0
    assert_eq!(calculate_price(10_000, 1_000_000_000, 100), Ok(10_000_000));
    assert_eq!(calculate_price(1_000_000, 1_000_000_000, 100), Ok(1_000_000_000));
}

#[test]
fn price_flat_curve_is_constant() {
    for supply in [0u64, 1, 999, 123_456_789, u64::MAX] {
        assert_eq!(calculate_price(supply, 77_000, 0), Ok(77_000));
    }
}

#[test]
fn price_overflow_is_reported_not_wrapped() {
    // past the scale fixed point the repeated squaring leaves 128 bits
    assert_eq!(
        calculate_price(2_000_000, 1_000_000_000, 100),
        Err(ErrorCode::MathOverflow)
    );
}

#[test]
fn price_can_underflow_to_zero() {
    // tiny supply with a steep exponent truncates to a zero price
    assert_eq!(calculate_price(5, 2_000_000_000, 200), Ok(0));
}

#[test]
fn buy_quote_unit_curve_from_zero_overflows() {
    // k = 1.0 scaled, n = 1.0, supply 0, spend 1_000_000: the 100-step
    // integration pushes the cumulative supply past the point where the
    // power approximation leaves the 128-bit accumulator (step 81, supply
    // 1_613_905), so the quote is an overflow error rather than a token
    // count.
    assert_eq!(
        calculate_tokens_out(1_000_000, 0, 1_000_000_000, 100),
        Err(ErrorCode::MathOverflow)
    );
}

#[test]
fn buy_quote_flat_curve_exact() {
    // flat curve at price 1.0: each of the 100 steps buys
    // 10_000 * 10^9 / 10^9 tokens, and the sum is descaled by 1000
    assert_eq!(calculate_tokens_out(1_000_000, 0, 1_000_000_000, 0), Ok(1_000));
}

#[test]
fn buy_quote_unit_curve_at_fixed_point() {
    // supply at the scale fixed point: price 1.0 throughout
    assert_eq!(
        calculate_tokens_out(100_000, 1_000_000, 1_000_000_000, 100),
        Ok(95)
    );
}

#[test]
fn buy_quote_zero_price_yields_zero_tokens() {
    assert_eq!(calculate_tokens_out(1_000, 0, 0, 100), Ok(0));
    assert_eq!(calculate_tokens_out(1_000, 5, 2_000_000_000, 200), Ok(0));
}

#[test]
fn sell_quote_exact_scenario() {
    assert_eq!(
        calculate_usdc_out(100_000, 1_000_000, 1_000_000_000, 100),
        Ok(95_050)
    );
}

#[test]
fn sell_quote_flat_curve_exact() {
    // 1_000 tokens at flat price 1.0: 100 steps of 10 * 10^9 / 10^9
    assert_eq!(calculate_usdc_out(1_000, 1_000, 1_000_000_000, 0), Ok(1_000));
}

#[test]
fn curve_round_trip_never_profits() {
    // buy on the flat curve, then immediately sell everything back
    let mut market = sample_market(1_000_000_000, 0);
    let spent = 1_000_000u64;
    let bought = buy_on_curve(&mut market, 1, 55, 0, spent, 0).unwrap();
    let sold = sell_on_curve(&mut market, 1, 55, 0, bought.token_amount, 0).unwrap();
    assert_eq!(bought.token_amount, 1_000);
    assert_eq!(sold.usdc_amount, 1_000);
    assert!(sold.usdc_amount <= spent);
}

#[test]
fn buy_updates_market_and_emits_event() {
    let mut market = sample_market(1_000_000_000, 0);
    let event = buy_on_curve(&mut market, 9, 55, 1, 500_000, 0).unwrap();
    assert_eq!(event.market, 9);
    assert_eq!(event.trader, 55);
    assert_eq!(event.action, TradeAction::Buy);
    assert_eq!(event.team, 1);
    assert_eq!(event.usdc_amount, 500_000);
    assert_eq!(event.token_amount, 500);
    assert_eq!(event.new_supply, 500);
    assert_eq!(event.pool_value, 500_000);
    assert_eq!(market.team_b_supply, 500);
    assert_eq!(market.team_a_supply, 0);
    assert_eq!(market.pool_value, 500_000);
}

#[test]
fn buy_rejects_invalid_team() {
    let mut market = sample_market(1_000_000_000, 0);
    assert_eq!(
        buy_on_curve(&mut market, 1, 55, 2, 1_000, 0).unwrap_err(),
        ErrorCode::InvalidTeam
    );
}

#[test]
fn buy_rejects_slippage() {
    let mut market = sample_market(1_000_000_000, 0);
    let r = buy_on_curve(&mut market, 1, 55, 0, 1_000_000, 1_001);
    assert_eq!(r.unwrap_err(), ErrorCode::SlippageExceeded);
    assert_eq!(market.team_a_supply, 0);
    assert_eq!(market.pool_value, 0);
}

#[test]
fn buy_rejected_after_halt() {
    let mut market = sample_market(1_000_000_000, 0);
    halt_trading(&mut market).unwrap();
    assert_eq!(
        buy_on_curve(&mut market, 1, 55, 0, 1_000, 0).unwrap_err(),
        ErrorCode::TradingHalted
    );
}

#[test]
fn sell_rejects_more_than_outstanding() {
    let mut market = sample_market(1_000_000_000, 0);
    buy_on_curve(&mut market, 1, 55, 0, 1_000_000, 0).unwrap();
    let r = sell_on_curve(&mut market, 1, 55, 0, 1_001, 0);
    assert_eq!(r.unwrap_err(), ErrorCode::InsufficientSupply);
}

#[test]
fn sell_solvency_guard_blocks_unbacked_payout() {
    let mut market = sample_market(1_000_000_000, 0);
    market.team_a_supply = 1_000_000;
    // pool_value stays 0: the quote is positive but unbacked
    let r = sell_on_curve(&mut market, 1, 55, 0, 100_000, 0);
    assert_eq!(r.unwrap_err(), ErrorCode::InsufficientPoolValue);
    assert_eq!(market.team_a_supply, 1_000_000);
}

#[test]
fn sell_updates_market_and_emits_event() {
    let mut market = sample_market(1_000_000_000, 0);
    buy_on_curve(&mut market, 9, 55, 0, 1_000_000, 0).unwrap();
    let event = sell_on_curve(&mut market, 9, 55, 0, 400, 0).unwrap();
    assert_eq!(event.action, TradeAction::Sell);
    assert_eq!(event.token_amount, 400);
    assert_eq!(event.usdc_amount, 400);
    assert_eq!(event.new_supply, 600);
    assert_eq!(event.pool_value, 999_600);
    assert_eq!(market.team_a_supply, 600);
    assert_eq!(market.pool_value, 999_600);
}

#[test]
fn halt_is_irreversible_and_only_once() {
    let mut market = sample_market(1_000_000_000, 0);
    assert_eq!(halt_trading(&mut market), Ok(()));
    assert!(market.trading_halted);
    assert_eq!(halt_trading(&mut market).unwrap_err(), ErrorCode::AlreadyHalted);
    assert!(market.trading_halted);
}

#[test]
fn resolve_before_halt_fails() {
    let mut market = sample_market(1_000_000_000, 0);
    let r = resolve_market(&mut market, 0);
    assert_eq!(r.unwrap_err(), ErrorCode::TradingNotHalted);
    assert!(!market.is_resolved);
}

#[test]
fn resolve_twice_fails() {
    let mut market = sample_market(1_000_000_000, 0);
    halt_trading(&mut market).unwrap();
    assert_eq!(resolve_market(&mut market, 1), Ok(()));
    assert_eq!(market.winner, Some(1));
    assert!(market.is_resolved);
    let r = resolve_market(&mut market, 0);
    assert_eq!(r.unwrap_err(), ErrorCode::AlreadyResolved);
    assert_eq!(market.winner, Some(1));
}

#[test]
fn resolve_rejects_invalid_winner() {
    let mut market = sample_market(1_000_000_000, 0);
    halt_trading(&mut market).unwrap();
    let r = resolve_market(&mut market, 2);
    assert_eq!(r.unwrap_err(), ErrorCode::InvalidTeam);
    assert!(!market.is_resolved);
}

#[test]
fn claim_proportional_payout_scenario() {
    // holder owns 500 of 2_000 winning tokens against a pool of 100_000
    let mut market = sample_market(1_000_000_000, 0);
    market.team_a_supply = 2_000;
    market.pool_value = 100_000;
    market.trading_halted = true;
    market.is_resolved = true;
    market.winner = Some(0);
    let outcome = claim_winnings(&market, 500, 0).unwrap();
    assert_eq!(outcome.winner, 0);
    assert_eq!(outcome.burn_amount, 500);
    assert_eq!(outcome.payout, 25_000);
}

#[test]
fn claim_before_resolution_fails() {
    let market = sample_market(1_000_000_000, 0);
    assert_eq!(
        claim_winnings(&market, 500, 500).unwrap_err(),
        ErrorCode::MarketNotResolved
    );
}

#[test]
fn claim_without_winner_fails() {
    let mut market = sample_market(1_000_000_000, 0);
    market.is_resolved = true;
    market.winner = None;
    assert_eq!(
        claim_winnings(&market, 500, 500).unwrap_err(),
        ErrorCode::NoWinner
    );
}

#[test]
fn claim_second_time_fails_with_no_winning_tokens() {
    let mut market = sample_market(1_000_000_000, 0);
    market.team_a_supply = 2_000;
    market.pool_value = 100_000;
    market.trading_halted = true;
    market.is_resolved = true;
    market.winner = Some(0);
    let outcome = claim_winnings(&market, 500, 0).unwrap();
    // the ledger burns the whole winning balance; the second attempt sees 0
    assert_eq!(outcome.burn_amount, 500);
    let again = claim_winnings(&market, 0, 0);
    assert_eq!(again.unwrap_err(), ErrorCode::NoWinningTokens);
}

#[test]
fn claim_payouts_never_exceed_pool_value() {
    let mut market = sample_market(1_000_000_000, 0);
    market.team_a_supply = 3;
    market.pool_value = 100;
    market.trading_halted = true;
    market.is_resolved = true;
    market.winner = Some(0);
    // three holders with the whole supply: floored payouts leave dust behind
    let a = claim_winnings(&market, 1, 0).unwrap().payout;
    let b = claim_winnings(&market, 1, 0).unwrap().payout;
    let c = claim_winnings(&market, 1, 0).unwrap().payout;
    assert_eq!(a + b + c, 99);
    assert!(a + b + c <= market.pool_value);
}

#[test]
fn claim_with_zero_winning_supply_is_overflow_error() {
    let mut market = sample_market(1_000_000_000, 0);
    market.pool_value = 100_000;
    market.trading_halted = true;
    market.is_resolved = true;
    market.winner = Some(1);
    assert_eq!(
        claim_winnings(&market, 0, 500).unwrap_err(),
        ErrorCode::MathOverflow
    );
}

#[test]
fn full_lifecycle_trade_halt_resolve_claim() {
    let mut market = sample_market(1_000_000_000, 0);
    buy_on_curve(&mut market, 1, 55, 0, 600_000, 0).unwrap();
    buy_on_curve(&mut market, 1, 56, 1, 400_000, 0).unwrap();
    assert_eq!(market.pool_value, 1_000_000);
    assert_eq!(market.team_a_supply, 600);
    assert_eq!(market.team_b_supply, 400);
    halt_trading(&mut market).unwrap();
    resolve_market(&mut market, 0).unwrap();
    // side-A holder with the entire winning supply takes the whole pool
    let outcome = claim_winnings(&market, 600, 0).unwrap();
    assert_eq!(outcome.payout, 1_000_000);
    assert_eq!(outcome.burn_amount, 600);
}
