use sportsxchange::errors::ErrorCode;
use sportsxchange::linear::{buy_on_curve, calculate_tokens_linear, create_market_v2};

fn sample_market(base_price: u64, slope: u64) -> sportsxchange::linear::MarketV2 {
    create_market_v2(
        7,
        String::from("CHI-DET-20240301"),
        String::from("Bulls"),
        String::from("Pistons"),
        301,
        302,
        303,
        base_price,
        slope,
    )
}

#[test]
fn linear_quote_at_base_price() {
    // supply 0: price is the base price, tokens = usdc * 10^6 / price
    assert_eq!(
        calculate_tokens_linear(1_000_000, 0, 100, 10),
        Ok(10_000_000_000)
    );
}

#[test]
fn linear_quote_climbs_with_supply() {
    // 5 million tokens outstanding: price = 100 + 10 * 5 = 150
    assert_eq!(
        calculate_tokens_linear(1_000_000, 5_000_000, 100, 10),
        Ok(6_666_666_666)
    );
    // below one supply step the price has not moved yet
    assert_eq!(
        calculate_tokens_linear(1_000_000, 999_999, 100, 10),
        Ok(10_000_000_000)
    );
}

#[test]
fn linear_quote_zero_price_yields_zero() {
    assert_eq!(calculate_tokens_linear(1_000_000, 0, 0, 10), Ok(0));
}

#[test]
fn linear_quote_overflow_in_price_is_error() {
    assert_eq!(
        calculate_tokens_linear(1, 2_000_000, u64::MAX, 1),
        Err(ErrorCode::MathOverflow)
    );
    assert_eq!(
        calculate_tokens_linear(1, u64::MAX, u64::MAX, u64::MAX),
        Err(ErrorCode::MathOverflow)
    );
}

#[test]
fn linear_quote_overflow_in_tokens_is_error() {
    // u64::MAX * 10^6 / 1 does not fit in 64 bits
    assert_eq!(
        calculate_tokens_linear(u64::MAX, 0, 1, 0),
        Err(ErrorCode::MathOverflow)
    );
}

#[test]
fn linear_buy_updates_supply_and_pool() {
    let mut market = sample_market(100, 10);
    let tokens = buy_on_curve(&mut market, 0, 1_000_000, 0).unwrap();
    assert_eq!(tokens, 10_000_000_000);
    assert_eq!(market.team_a_supply, 10_000_000_000);
    assert_eq!(market.team_b_supply, 0);
    assert_eq!(market.pool_value, 1_000_000);
    // the next buy pays the climbed price: 100 + 10 * 10_000 == 100_100
    let tokens = buy_on_curve(&mut market, 0, 1_000_000, 0).unwrap();
    assert_eq!(tokens, 1_000_000 * 1_000_000 / 100_100);
}

#[test]
fn linear_buy_rejects_invalid_team() {
    let mut market = sample_market(100, 10);
    assert_eq!(
        buy_on_curve(&mut market, 2, 1_000, 0).unwrap_err(),
        ErrorCode::InvalidTeam
    );
}

#[test]
fn linear_buy_rejects_slippage() {
    let mut market = sample_market(100, 10);
    let r = buy_on_curve(&mut market, 0, 1_000_000, 10_000_000_001);
    assert_eq!(r.unwrap_err(), ErrorCode::SlippageExceeded);
    assert_eq!(market.team_a_supply, 0);
    assert_eq!(market.pool_value, 0);
}

#[test]
fn linear_buy_rejected_after_halt() {
    let mut market = sample_market(100, 10);
    market.trading_halted = true;
    assert_eq!(
        buy_on_curve(&mut market, 0, 1_000, 0).unwrap_err(),
        ErrorCode::TradingHalted
    );
}
