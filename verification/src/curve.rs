use vstd::prelude::*;

use crate::errors::ErrorCode;
use crate::math::mul_div_u64;

verus! {

/// Fixed-point scale for prices and curve coefficients: 1.0 == 10^9.
pub const PRICE_SCALE: u64 = 1_000_000_000;

/// Fixed-point scale applied after every squaring step of the power
/// approximation, keeping intermediates within range.
pub const POW_SCALE: u64 = 1_000_000;

/// A bonding-curve market: each side's tokens are issued against the curve
/// `price(s) = k * s^(n/100)` (both `k_value` and the price fixed-point
/// scaled by 10^9, `n_value` a percentage scaled by 100), and the value paid
/// in accumulates in `pool_value` until winners redeem it.
///
/// External accounts (authority, mints, the value-asset vault) are carried as
/// plain identifiers. The market starts active; `halt_trading` and
/// `resolve_market` drive the one-way lifecycle.
pub struct MarketV2 {
    pub authority: u64,
    pub game_id: String,
    pub team_a: String,
    pub team_b: String,
    pub team_a_mint: u64,
    pub team_b_mint: u64,
    pub usdc_vault: u64,
    pub k_value: u64,
    pub n_value: u64,
    pub team_a_supply: u64,
    pub team_b_supply: u64,
    pub pool_value: u64,
    pub trading_halted: bool,
    pub is_resolved: bool,
    pub winner: Option<u8>,
}

impl MarketV2 {
    /// Well-formedness: bounded display strings, a winner exactly when
    /// resolved, a winner that names a real side, and no resolution without a
    /// prior halt (halting is irreversible, so a resolved market stays
    /// halted).
    pub open spec fn wf(self) -> bool {
        &&& self.game_id@.len() <= 50
        &&& self.team_a@.len() <= 20
        &&& self.team_b@.len() <= 20
        &&& self.is_resolved <==> self.winner is Some
        &&& self.winner is Some ==> self.winner->0 <= 1
        &&& self.is_resolved ==> self.trading_halted
    }

    /// Outstanding supply of one side (0 = team A, 1 = team B).
    pub open spec fn side_supply(self, team: u8) -> u64 {
        if team == 0 {
            self.team_a_supply
        } else {
            self.team_b_supply
        }
    }
}

/// Trade record emitted for every buy or sell, for external observers; the
/// engine does not persist it. `new_supply` and `pool_value` carry the
/// post-trade state of the traded side.
#[derive(Clone, Copy, Debug, PartialEq, Eq, Structural)]
pub struct TradeEvent {
    pub market: u64,
    pub trader: u64,
    pub action: TradeAction,
    pub team: u8,
    pub usdc_amount: u64,
    pub token_amount: u64,
    pub new_supply: u64,
    pub pool_value: u64,
}

/// Direction of a curve trade.
#[derive(Clone, Copy, Debug, PartialEq, Eq, Structural)]
pub enum TradeAction {
    Buy,
    Sell,
}

/// One multiply step of the power approximation: the accumulator picks up a
/// factor of `base` (rescaled) on the iterations where `exp % 200 == 100`.
pub open spec fn pow_step(result: int, base: int, exp: int) -> int {
    if exp % 200 == 100 {
        result * base / (POW_SCALE as int)
    } else {
        result
    }
}

/// Whether the squaring loop of the power approximation stays within the
/// 128-bit accumulator for the whole run.
pub open spec fn pow_fits(base: int, exp: int, result: int) -> bool
    decreases exp,
{
    if exp <= 0 {
        true
    } else if exp % 200 == 100 && result * base > u128::MAX {
        false
    } else if base * base > u128::MAX {
        false
    } else {
        pow_fits(base * base / (POW_SCALE as int), exp / 2, pow_step(result, base, exp))
    }
}

/// The value the squaring loop computes (total, ignoring overflow): starting
/// from `result`, square `base` and halve `exp` until it reaches zero,
/// multiplying the accumulator in on the marked iterations. Each multiply is
/// followed by a division by `POW_SCALE`, which is what makes this an
/// approximation rather than an exact power.
pub open spec fn pow_value(base: int, exp: int, result: int) -> int
    decreases exp,
{
    if exp <= 0 {
        result
    } else {
        pow_value(base * base / (POW_SCALE as int), exp / 2, pow_step(result, base, exp))
    }
}

/// What the instantaneous price is at a given supply, on every input:
/// `k` itself at supply zero, otherwise `k * approx(supply^(n/100))`
/// rescaled, with `MathOverflow` whenever an intermediate leaves the 128-bit
/// accumulator or the final price does not fit in 64 bits.
pub open spec fn spec_price(supply: int, k: u64, n: u64) -> Result<u64, ErrorCode> {
    if supply == 0 {
        Result::Ok(k)
    } else if !pow_fits(supply, n as int, PRICE_SCALE as int) {
        Result::Err(ErrorCode::MathOverflow)
    } else {
        let power = pow_value(supply, n as int, PRICE_SCALE as int);
        if k * power > u128::MAX {
            Result::Err(ErrorCode::MathOverflow)
        } else if k * power / (PRICE_SCALE as int) > u64::MAX {
            Result::Err(ErrorCode::MathOverflow)
        } else {
            Result::Ok((k * power / (PRICE_SCALE as int)) as u64)
        }
    }
}

/// Instantaneous price at `supply` on the curve `price(s) = k * s^(n/100)`.
///
/// The fractional power is approximated by exponentiation-by-squaring over
/// the scaled exponent, dividing by `POW_SCALE` after every multiply to guard
/// the accumulator; the computation is integer-only and bit-identical across
/// platforms. Fails with `MathOverflow` instead of wrapping.
#[verifier::loop_isolation(false)]
pub fn calculate_price(supply: u64, k: u64, n: u64) -> (r: Result<u64, ErrorCode>)
    ensures
        r == spec_price(supply as int, k, n),
{
    if supply == 0 {
        return Ok(k);
    }
    let mut result: u128 = PRICE_SCALE as u128;
    let mut base: u128 = supply as u128;
    let mut exp: u128 = n as u128;
    while exp > 0
        invariant
            pow_fits(supply as int, n as int, PRICE_SCALE as int) == pow_fits(
                base as int,
                exp as int,
                result as int,
            ),
            pow_value(supply as int, n as int, PRICE_SCALE as int) == pow_value(
                base as int,
                exp as int,
                result as int,
            ),
        decreases exp,
    {
        let ghost b0 = base as int;
        let ghost e0 = exp as int;
        let ghost r0 = result as int;
        if exp % 200 == 100 {
            result = match result.checked_mul(base) {
                Some(p) => p / (POW_SCALE as u128),
                None => {
                    proof {
                        assert(!pow_fits(b0, e0, r0));
                    }
                    return Err(ErrorCode::MathOverflow);
                },
            };
        }
        base = match base.checked_mul(base) {
            Some(p) => p / (POW_SCALE as u128),
            None => {
                proof {
                    assert(!pow_fits(b0, e0, r0));
                }
                return Err(ErrorCode::MathOverflow);
            },
        };
        exp = exp / 2;
        proof {
            assert(result as int == pow_step(r0, b0, e0));
            assert(pow_fits(b0, e0, r0) == pow_fits(base as int, exp as int, result as int));
            assert(pow_value(b0, e0, r0) == pow_value(base as int, exp as int, result as int));
        }
    }
    let price: u128 = match (k as u128).checked_mul(result) {
        Some(p) => p / (PRICE_SCALE as u128),
        None => {
            return Err(ErrorCode::MathOverflow);
        },
    };
    if price > u64::MAX as u128 {
        return Err(ErrorCode::MathOverflow);
    }
    Ok(price as u64)
}


/// One prefix of the buy-side Riemann sum, `steps` steps still to take with
/// `acc` tokens accumulated so far: at each step the price is evaluated at
/// the supply reached so far (left endpoint) and `usdc_per_step` buys
/// `floor(usdc_per_step * PRICE_SCALE / price)` scaled token units. A step
/// that meets price zero abandons the sum and yields zero tokens; any
/// intermediate that leaves its range is `MathOverflow`.
pub open spec fn spec_buy_rec(
    steps: int,
    usdc_per_step: u64,
    supply: u64,
    k: u64,
    n: u64,
    acc: u64,
) -> Result<u64, ErrorCode>
    decreases steps,
{
    if steps <= 0 {
        Result::Ok(acc)
    } else if supply + acc > u64::MAX {
        Result::Err(ErrorCode::MathOverflow)
    } else {
        match spec_price(supply + acc, k, n) {
            Result::Err(e) => Result::Err(e),
            Result::Ok(price) => {
                if price == 0 {
                    Result::Ok(0)
                } else {
                    let t = usdc_per_step * (PRICE_SCALE as int) / (price as int);
                    if t > u64::MAX {
                        Result::Err(ErrorCode::MathOverflow)
                    } else if acc + t > u64::MAX {
                        Result::Err(ErrorCode::MathOverflow)
                    } else {
                        spec_buy_rec(steps - 1, usdc_per_step, supply, k, n, (acc + t) as u64)
                    }
                }
            },
        }
    }
}

/// What a buy quote returns on every input: the 100-step left-endpoint
/// Riemann sum of `1/price` over the value paid in, descaled by 1000 at the
/// end.
pub open spec fn spec_tokens_out(usdc_amount: u64, current_supply: u64, k: u64, n: u64) -> Result<
    u64,
    ErrorCode,
> {
    match spec_buy_rec(100, (usdc_amount / 100) as u64, current_supply, k, n, 0) {
        Result::Ok(t) => Result::Ok((t / 1000) as u64),
        Result::Err(e) => Result::Err(e),
    }
}

/// Tokens issued for `usdc_amount` of value at `current_supply` on the curve
/// `price(s) = k * s^(n/100)`.
///
/// The integral of `1/price` is approximated by 100 equal value steps,
/// evaluating the price at the cumulative supply reached so far (left
/// endpoints, in order). Both the step count and the evaluation order are
/// part of the quote's definition: a different quadrature yields different
/// economics.
#[verifier::loop_isolation(false)]
pub fn calculate_tokens_out(usdc_amount: u64, current_supply: u64, k: u64, n: u64) -> (r: Result<
    u64,
    ErrorCode,
>)
    ensures
        r == spec_tokens_out(usdc_amount, current_supply, k, n),
{
    let mut tokens_out: u64 = 0;
    let usdc_per_step: u64 = usdc_amount / 100;
    let mut step: u64 = 0;
    while step < 100
        invariant
            step <= 100,
            spec_buy_rec(100, usdc_per_step, current_supply, k, n, 0) == spec_buy_rec(
                100 - step,
                usdc_per_step,
                current_supply,
                k,
                n,
                tokens_out,
            ),
        decreases 100 - step,
    {
        let supply_now: u64 = match current_supply.checked_add(tokens_out) {
            Some(s) => s,
            None => {
                return Err(ErrorCode::MathOverflow);
            },
        };
        let current_price: u64 = match calculate_price(supply_now, k, n) {
            Ok(p) => p,
            Err(e) => {
                return Err(e);
            },
        };
        if current_price == 0 {
            return Ok(0);
        }
        let tokens_this_step: u64 = match mul_div_u64(usdc_per_step, PRICE_SCALE, current_price) {
            Ok(t) => t,
            Err(e) => {
                return Err(e);
            },
        };
        tokens_out = match tokens_out.checked_add(tokens_this_step) {
            Some(t) => t,
            None => {
                return Err(ErrorCode::MathOverflow);
            },
        };
        step = step + 1;
    }
    Ok(tokens_out / 1000)
}

/// One suffix of the sell-side Riemann sum, from step `i` (of 100) with
/// `acc` value accumulated so far: step `i` values `tokens_per_step` tokens
/// at the price where the walk down from `current_supply` stands, adding
/// `floor(tokens_per_step * price / PRICE_SCALE)`.
pub open spec fn spec_sell_rec(
    i: int,
    tokens_per_step: u64,
    current_supply: u64,
    k: u64,
    n: u64,
    acc: u64,
) -> Result<u64, ErrorCode>
    decreases 100 - i,
{
    if i >= 100 {
        Result::Ok(acc)
    } else {
        match spec_price(current_supply - tokens_per_step * i, k, n) {
            Result::Err(e) => Result::Err(e),
            Result::Ok(price) => {
                let v = tokens_per_step * (price as int) / (PRICE_SCALE as int);
                if v > u64::MAX {
                    Result::Err(ErrorCode::MathOverflow)
                } else if acc + v > u64::MAX {
                    Result::Err(ErrorCode::MathOverflow)
                } else {
                    spec_sell_rec(i + 1, tokens_per_step, current_supply, k, n, (acc + v) as u64)
                }
            },
        }
    }
}

/// What a sell quote returns on every input with `token_amount` no larger
/// than the outstanding supply: the 100-step Riemann sum of the price walked
/// downward from `current_supply` in equal token steps.
pub open spec fn spec_usdc_out(token_amount: u64, current_supply: u64, k: u64, n: u64) -> Result<
    u64,
    ErrorCode,
> {
    spec_sell_rec(0, (token_amount / 100) as u64, current_supply, k, n, 0)
}

/// Value returned for selling `token_amount` tokens back at
/// `current_supply`, the mirror of `calculate_tokens_out`: 100 equal token
/// steps walking the supply downward, each valued at the price at its upper
/// endpoint.
#[verifier::loop_isolation(false)]
pub fn calculate_usdc_out(token_amount: u64, current_supply: u64, k: u64, n: u64) -> (r: Result<
    u64,
    ErrorCode,
>)
    requires
        token_amount <= current_supply,
    ensures
        r == spec_usdc_out(token_amount, current_supply, k, n),
{
    let mut usdc_out: u64 = 0;
    let tokens_per_step: u64 = token_amount / 100;
    proof {
        vstd::arithmetic::div_mod::lemma_fundamental_div_mod(token_amount as int, 100);
        vstd::arithmetic::div_mod::lemma_mod_division_less_than_divisor(token_amount as int, 100);
    }
    let mut step: u64 = 0;
    while step < 100
        invariant
            step <= 100,
            100 * tokens_per_step <= token_amount,
            spec_sell_rec(0, tokens_per_step, current_supply, k, n, 0) == spec_sell_rec(
                step as int,
                tokens_per_step,
                current_supply,
                k,
                n,
                usdc_out,
            ),
        decreases 100 - step,
    {
        proof {
            assert(tokens_per_step * step <= token_amount) by (nonlinear_arith)
                requires
                    100 * tokens_per_step <= token_amount,
                    step <= 100,
                    0 <= tokens_per_step,
            ;
        }
        let supply_at_step: u64 = current_supply - tokens_per_step * step;
        let current_price: u64 = match calculate_price(supply_at_step, k, n) {
            Ok(p) => p,
            Err(e) => {
                return Err(e);
            },
        };
        let usdc_this_step: u64 = match mul_div_u64(tokens_per_step, current_price, PRICE_SCALE) {
            Ok(v) => v,
            Err(e) => {
                return Err(e);
            },
        };
        usdc_out = match usdc_out.checked_add(usdc_this_step) {
            Some(v) => v,
            None => {
                return Err(ErrorCode::MathOverflow);
            },
        };
        step = step + 1;
    }
    Ok(usdc_out)
}


/// The fields of a curve market that no trade may touch: identity, curve
/// parameters and account identifiers.
pub open spec fn same_market_identity(a: MarketV2, b: MarketV2) -> bool {
    &&& a.authority == b.authority
    &&& a.game_id@ == b.game_id@
    &&& a.team_a@ == b.team_a@
    &&& a.team_b@ == b.team_b@
    &&& a.team_a_mint == b.team_a_mint
    &&& a.team_b_mint == b.team_b_mint
    &&& a.usdc_vault == b.usdc_vault
    &&& a.k_value == b.k_value
    &&& a.n_value == b.n_value
}

/// The lifecycle fields of a curve market: halted flag, resolved flag,
/// winner.
pub open spec fn same_lifecycle(a: MarketV2, b: MarketV2) -> bool {
    &&& a.trading_halted == b.trading_halted
    &&& a.is_resolved == b.is_resolved
    &&& a.winner == b.winner
}

/// What a buy decides on every input: the tokens to mint, or the exact error.
/// Checks run in order: halted market, side out of range, quote failure,
/// slippage, then representability of the supply and pool updates.
pub open spec fn spec_buy(m: MarketV2, team: u8, usdc_amount: u64, min_tokens_out: u64) -> Result<
    u64,
    ErrorCode,
> {
    if m.trading_halted {
        Result::Err(ErrorCode::TradingHalted)
    } else if team > 1 {
        Result::Err(ErrorCode::InvalidTeam)
    } else {
        match spec_tokens_out(usdc_amount, m.side_supply(team), m.k_value, m.n_value) {
            Result::Err(e) => Result::Err(e),
            Result::Ok(t) => if t < min_tokens_out {
                Result::Err(ErrorCode::SlippageExceeded)
            } else if m.side_supply(team) + t > u64::MAX {
                Result::Err(ErrorCode::MathOverflow)
            } else if m.pool_value + usdc_amount > u64::MAX {
                Result::Err(ErrorCode::MathOverflow)
            } else {
                Result::Ok(t)
            },
        }
    }
}

/// What a sell decides on every input: the value to pay out, or the exact
/// error. Checks run in order: halted market, side out of range, more tokens
/// than outstanding, quote failure, slippage, then the solvency guard
/// against the pool value.
pub open spec fn spec_sell(m: MarketV2, team: u8, token_amount: u64, min_usdc_out: u64) -> Result<
    u64,
    ErrorCode,
> {
    if m.trading_halted {
        Result::Err(ErrorCode::TradingHalted)
    } else if team > 1 {
        Result::Err(ErrorCode::InvalidTeam)
    } else if token_amount > m.side_supply(team) {
        Result::Err(ErrorCode::InsufficientSupply)
    } else {
        match spec_usdc_out(token_amount, m.side_supply(team), m.k_value, m.n_value) {
            Result::Err(e) => Result::Err(e),
            Result::Ok(v) => if v < min_usdc_out {
                Result::Err(ErrorCode::SlippageExceeded)
            } else if v > m.pool_value {
                Result::Err(ErrorCode::InsufficientPoolValue)
            } else {
                Result::Ok(v)
            },
        }
    }
}

/// Create a bonding-curve market with its parameters fixed for life: curve
/// coefficient `k` (scaled by 10^9) and exponent `n` (percentage scaled by
/// 100). Both supplies and the pool value start at zero and the market is
/// immediately open for trading.
pub fn create_market_v2(
    authority: u64,
    game_id: String,
    team_a: String,
    team_b: String,
    team_a_mint: u64,
    team_b_mint: u64,
    usdc_vault: u64,
    k: u64,
    n: u64,
) -> (m: MarketV2)
    requires
        game_id@.len() <= 50,
        team_a@.len() <= 20,
        team_b@.len() <= 20,
    ensures
        m.authority == authority,
        m.game_id@ == game_id@,
        m.team_a@ == team_a@,
        m.team_b@ == team_b@,
        m.team_a_mint == team_a_mint,
        m.team_b_mint == team_b_mint,
        m.usdc_vault == usdc_vault,
        m.k_value == k,
        m.n_value == n,
        m.team_a_supply == 0,
        m.team_b_supply == 0,
        m.pool_value == 0,
        !m.trading_halted,
        !m.is_resolved,
        m.winner is None,
        m.wf(),
{
    MarketV2 {
        authority,
        game_id,
        team_a,
        team_b,
        team_a_mint,
        team_b_mint,
        usdc_vault,
        k_value: k,
        n_value: n,
        team_a_supply: 0,
        team_b_supply: 0,
        pool_value: 0,
        trading_halted: false,
        is_resolved: false,
        winner: None,
    }
}

/// Buy `team` tokens with `usdc_amount` of value on the bonding curve.
///
/// Decides exactly as `spec_buy`; on success that side's supply and the pool
/// value grow by the trade, and the returned event carries what the ledger
/// must do: move `usdc_amount` from the trader into the vault and mint
/// `token_amount` of the side's tokens to the trader. On any error the
/// market is unchanged.
pub fn buy_on_curve(
    market: &mut MarketV2,
    market_id: u64,
    trader: u64,
    team: u8,
    usdc_amount: u64,
    min_tokens_out: u64,
) -> (r: Result<TradeEvent, ErrorCode>)
    ensures
        old(market).wf() ==> final(market).wf(),
        match spec_buy(*old(market), team, usdc_amount, min_tokens_out) {
            Result::Ok(t) => {
                &&& r == Result::<TradeEvent, ErrorCode>::Ok(
                    (TradeEvent {
                        market: market_id,
                        trader,
                        action: TradeAction::Buy,
                        team,
                        usdc_amount,
                        token_amount: t,
                        new_supply: (old(market).side_supply(team) + t) as u64,
                        pool_value: (old(market).pool_value + usdc_amount) as u64,
                    }),
                )
                &&& final(market).side_supply(team) == old(market).side_supply(team) + t
                &&& team == 0 ==> final(market).team_b_supply == old(market).team_b_supply
                &&& team == 1 ==> final(market).team_a_supply == old(market).team_a_supply
                &&& final(market).pool_value == old(market).pool_value + usdc_amount
                &&& same_market_identity(*final(market), *old(market))
                &&& same_lifecycle(*final(market), *old(market))
            },
            Result::Err(e) => r == Result::<TradeEvent, ErrorCode>::Err(e) && *final(market)
                == *old(market),
        },
{
    if market.trading_halted {
        return Err(ErrorCode::TradingHalted);
    }
    if team > 1 {
        return Err(ErrorCode::InvalidTeam);
    }
    let current_supply: u64 = if team == 0 {
        market.team_a_supply
    } else {
        market.team_b_supply
    };
    let tokens_out: u64 = match calculate_tokens_out(
        usdc_amount,
        current_supply,
        market.k_value,
        market.n_value,
    ) {
        Ok(t) => t,
        Err(e) => {
            return Err(e);
        },
    };
    if tokens_out < min_tokens_out {
        return Err(ErrorCode::SlippageExceeded);
    }
    let new_supply: u64 = match current_supply.checked_add(tokens_out) {
        Some(s) => s,
        None => {
            return Err(ErrorCode::MathOverflow);
        },
    };
    let new_pool_value: u64 = match market.pool_value.checked_add(usdc_amount) {
        Some(v) => v,
        None => {
            return Err(ErrorCode::MathOverflow);
        },
    };
    if team == 0 {
        market.team_a_supply = new_supply;
    } else {
        market.team_b_supply = new_supply;
    }
    market.pool_value = new_pool_value;
    Ok(
        TradeEvent {
            market: market_id,
            trader,
            action: TradeAction::Buy,
            team,
            usdc_amount,
            token_amount: tokens_out,
            new_supply,
            pool_value: new_pool_value,
        },
    )
}

/// Sell `token_amount` of `team` tokens back to the bonding curve.
///
/// Decides exactly as `spec_sell`; the quote is only paid when the pool
/// actually holds it (`InsufficientPoolValue` otherwise), so the pool can
/// never promise more value than it has. On success that side's supply and
/// the pool value shrink by the trade, and the returned event carries the
/// ledger work: burn `token_amount` from the seller and move `usdc_amount`
/// from the vault to the seller. On any error the market is unchanged.
pub fn sell_on_curve(
    market: &mut MarketV2,
    market_id: u64,
    trader: u64,
    team: u8,
    token_amount: u64,
    min_usdc_out: u64,
) -> (r: Result<TradeEvent, ErrorCode>)
    ensures
        old(market).wf() ==> final(market).wf(),
        match spec_sell(*old(market), team, token_amount, min_usdc_out) {
            Result::Ok(v) => {
                &&& r == Result::<TradeEvent, ErrorCode>::Ok(
                    (TradeEvent {
                        market: market_id,
                        trader,
                        action: TradeAction::Sell,
                        team,
                        usdc_amount: v,
                        token_amount,
                        new_supply: (old(market).side_supply(team) - token_amount) as u64,
                        pool_value: (old(market).pool_value - v) as u64,
                    }),
                )
                &&& final(market).side_supply(team) == old(market).side_supply(team)
                    - token_amount
                &&& team == 0 ==> final(market).team_b_supply == old(market).team_b_supply
                &&& team == 1 ==> final(market).team_a_supply == old(market).team_a_supply
                &&& final(market).pool_value == old(market).pool_value - v
                &&& same_market_identity(*final(market), *old(market))
                &&& same_lifecycle(*final(market), *old(market))
            },
            Result::Err(e) => r == Result::<TradeEvent, ErrorCode>::Err(e) && *final(market)
                == *old(market),
        },
{
    if market.trading_halted {
        return Err(ErrorCode::TradingHalted);
    }
    if team > 1 {
        return Err(ErrorCode::InvalidTeam);
    }
    let current_supply: u64 = if team == 0 {
        market.team_a_supply
    } else {
        market.team_b_supply
    };
    if token_amount > current_supply {
        return Err(ErrorCode::InsufficientSupply);
    }
    let usdc_out: u64 = match calculate_usdc_out(
        token_amount,
        current_supply,
        market.k_value,
        market.n_value,
    ) {
        Ok(v) => v,
        Err(e) => {
            return Err(e);
        },
    };
    if usdc_out < min_usdc_out {
        return Err(ErrorCode::SlippageExceeded);
    }
    if usdc_out > market.pool_value {
        return Err(ErrorCode::InsufficientPoolValue);
    }
    let new_supply: u64 = current_supply - token_amount;
    let new_pool_value: u64 = market.pool_value - usdc_out;
    if team == 0 {
        market.team_a_supply = new_supply;
    } else {
        market.team_b_supply = new_supply;
    }
    market.pool_value = new_pool_value;
    Ok(
        TradeEvent {
            market: market_id,
            trader,
            action: TradeAction::Sell,
            team,
            usdc_amount: usdc_out,
            token_amount,
            new_supply,
            pool_value: new_pool_value,
        },
    )
}

/// Halt trading, e.g. when the underlying event starts. Fails with
/// `AlreadyHalted` on a second attempt; there is no way back to active
/// trading — halting is irreversible by design.
pub fn halt_trading(market: &mut MarketV2) -> (r: Result<(), ErrorCode>)
    ensures
        old(market).wf() ==> final(market).wf(),
        old(market).trading_halted ==> r == Result::<(), ErrorCode>::Err(ErrorCode::AlreadyHalted)
            && *final(market) == *old(market),
        !old(market).trading_halted ==> {
            &&& r is Ok
            &&& final(market).trading_halted
            &&& final(market).team_a_supply == old(market).team_a_supply
            &&& final(market).team_b_supply == old(market).team_b_supply
            &&& final(market).pool_value == old(market).pool_value
            &&& final(market).is_resolved == old(market).is_resolved
            &&& final(market).winner == old(market).winner
            &&& same_market_identity(*final(market), *old(market))
        },
{
    if market.trading_halted {
        return Err(ErrorCode::AlreadyHalted);
    }
    market.trading_halted = true;
    Ok(())
}

/// Resolve the market with the winning side, enabling settlement.
///
/// Requires trading to be halted first (`TradingNotHalted`) so that nobody
/// can trade against a known outcome, exactly one resolution
/// (`AlreadyResolved`), and a real side (`InvalidTeam`). Irreversible.
pub fn resolve_market(market: &mut MarketV2, winner: u8) -> (r: Result<(), ErrorCode>)
    ensures
        old(market).wf() ==> final(market).wf(),
        !old(market).trading_halted ==> r == Result::<(), ErrorCode>::Err(
            ErrorCode::TradingNotHalted,
        ) && *final(market) == *old(market),
        old(market).trading_halted && old(market).is_resolved ==> r == Result::<(),
            ErrorCode,
        >::Err(ErrorCode::AlreadyResolved) && *final(market) == *old(market),
        old(market).trading_halted && !old(market).is_resolved && winner > 1 ==> r == Result::<
            (),
            ErrorCode,
        >::Err(ErrorCode::InvalidTeam) && *final(market) == *old(market),
        old(market).trading_halted && !old(market).is_resolved && winner <= 1 ==> {
            &&& r is Ok
            &&& final(market).is_resolved
            &&& final(market).winner == Some(winner)
            &&& final(market).trading_halted
            &&& final(market).team_a_supply == old(market).team_a_supply
            &&& final(market).team_b_supply == old(market).team_b_supply
            &&& final(market).pool_value == old(market).pool_value
            &&& same_market_identity(*final(market), *old(market))
        },
{
    if !market.trading_halted {
        return Err(ErrorCode::TradingNotHalted);
    }
    if market.is_resolved {
        return Err(ErrorCode::AlreadyResolved);
    }
    if winner > 1 {
        return Err(ErrorCode::InvalidTeam);
    }
    market.winner = Some(winner);
    market.is_resolved = true;
    Ok(())
}

/// What settlement owes one holder: which side to burn, how much of it, and
/// the value to pay out.
#[derive(Clone, Copy, Debug, PartialEq, Eq, Structural)]
pub struct ClaimOutcome {
    pub winner: u8,
    pub burn_amount: u64,
    pub payout: u64,
}

/// What a claim decides on every input: `MarketNotResolved` before
/// resolution, `NoWinner` on a resolved market without one,
/// `NoWinningTokens` when the holder has none of the winning side, and
/// otherwise the proportional payout
/// `floor(balance * pool_value / winning_side_supply)` with the entire
/// winning balance burned (`MathOverflow` when the winning supply is zero or
/// the payout is unrepresentable).
pub open spec fn spec_claim(m: MarketV2, team_a_balance: u64, team_b_balance: u64) -> Result<
    ClaimOutcome,
    ErrorCode,
> {
    if !m.is_resolved {
        Result::Err(ErrorCode::MarketNotResolved)
    } else {
        match m.winner {
            Option::None => Result::Err(ErrorCode::NoWinner),
            Option::Some(w) => {
                let balance = if w == 0 {
                    team_a_balance
                } else {
                    team_b_balance
                };
                let total_supply = m.side_supply(w);
                if balance == 0 {
                    Result::Err(ErrorCode::NoWinningTokens)
                } else {
                    match crate::math::spec_mul_div(balance, m.pool_value, total_supply) {
                        Result::Err(e) => Result::Err(e),
                        Result::Ok(p) => Result::Ok(
                            (ClaimOutcome { winner: w, burn_amount: balance, payout: p }),
                        ),
                    }
                }
            },
        }
    }
}

/// Settle one holder after resolution.
///
/// The caller reads the holder's balances of both side tokens from the
/// ledger and passes them in; the engine decides exactly as `spec_claim`.
/// On success the caller burns the holder's entire winning-side balance and
/// then transfers the payout from the vault — in that order, atomically with
/// this decision. The market itself is not mutated: payouts stay
/// proportional against the supply outstanding at resolution, and because
/// the division floors, the sum of all payouts never exceeds the pool value
/// (the residual dust is an accepted, bounded loss).
pub fn claim_winnings(market: &MarketV2, team_a_balance: u64, team_b_balance: u64) -> (r: Result<
    ClaimOutcome,
    ErrorCode,
>)
    ensures
        r == spec_claim(*market, team_a_balance, team_b_balance),
        r is Ok ==> r->Ok_0.burn_amount > 0,
        r is Ok && (if r->Ok_0.winner == 0 {
            team_a_balance <= market.team_a_supply
        } else {
            team_b_balance <= market.team_b_supply
        }) ==> r->Ok_0.payout <= market.pool_value,
{
    if !market.is_resolved {
        return Err(ErrorCode::MarketNotResolved);
    }
    let winner: u8 = match market.winner {
        Some(w) => w,
        None => {
            return Err(ErrorCode::NoWinner);
        },
    };
    let token_balance: u64 = if winner == 0 {
        team_a_balance
    } else {
        team_b_balance
    };
    if token_balance == 0 {
        return Err(ErrorCode::NoWinningTokens);
    }
    let total_supply: u64 = if winner == 0 {
        market.team_a_supply
    } else {
        market.team_b_supply
    };
    let payout: u64 = match mul_div_u64(token_balance, market.pool_value, total_supply) {
        Ok(p) => p,
        Err(e) => {
            return Err(e);
        },
    };
    proof {
        if token_balance <= total_supply {
            assert(token_balance * market.pool_value <= total_supply * market.pool_value)
                by (nonlinear_arith)
                requires
                    token_balance <= total_supply,
                    0 <= market.pool_value,
            ;
            vstd::arithmetic::div_mod::lemma_div_is_ordered(
                token_balance as int * market.pool_value as int,
                total_supply as int * market.pool_value as int,
                total_supply as int,
            );
            vstd::arithmetic::div_mod::lemma_div_multiples_vanish(
                market.pool_value as int,
                total_supply as int,
            );
        }
    }
    Ok(ClaimOutcome { winner, burn_amount: token_balance, payout })
}

/// Law: settlement is idempotent in effect. A successful claim burns the
/// holder's entire winning-side balance, so once the ledger has applied it
/// the holder's balance is zero, and the same claim run again fails with
/// `NoWinningTokens` instead of paying twice.
pub proof fn lemma_claim_idempotent(m: MarketV2, team_a_balance: u64, team_b_balance: u64)
    requires
        spec_claim(m, team_a_balance, team_b_balance) is Ok,
    ensures
        ({
            let o = spec_claim(m, team_a_balance, team_b_balance)->Ok_0;
            &&& o.burn_amount == (if o.winner == 0 {
                team_a_balance
            } else {
                team_b_balance
            })
            &&& spec_claim(
                m,
                if o.winner == 0 {
                    0
                } else {
                    team_a_balance
                },
                if o.winner == 0 {
                    team_b_balance
                } else {
                    0
                },
            ) == Result::<ClaimOutcome, ErrorCode>::Err(ErrorCode::NoWinningTokens)
        }),
{
}


/// On a flat curve (exponent zero) the price is `k` at every supply.
pub proof fn lemma_price_flat(supply: int, k: u64)
    ensures
        spec_price(supply, k, 0) == Result::<u64, ErrorCode>::Ok(k),
{
    if supply != 0 {
        assert(pow_fits(supply, 0, PRICE_SCALE as int));
        assert(pow_value(supply, 0, PRICE_SCALE as int) == PRICE_SCALE as int);
        vstd::arithmetic::div_mod::lemma_div_multiples_vanish(k as int, PRICE_SCALE as int);
        assert(k * (PRICE_SCALE as int) == (PRICE_SCALE as int) * k) by (nonlinear_arith);
    }
}

/// On a flat curve every buy step yields the same token count, so a
/// successful sum is exactly `steps` times the per-step quote.
proof fn lemma_buy_rec_flat(steps: int, ups: u64, s: u64, k: u64, acc: u64)
    requires
        k > 0,
        steps >= 0,
        spec_buy_rec(steps, ups, s, k, 0, acc) is Ok,
    ensures
        spec_buy_rec(steps, ups, s, k, 0, acc)->Ok_0 == acc + steps * (ups * (PRICE_SCALE as int)
            / (k as int)),
    decreases steps,
{
    if steps <= 0 {
        assert(steps * (ups * (PRICE_SCALE as int) / (k as int)) == 0) by (nonlinear_arith)
            requires
                steps == 0,
        ;
    } else {
        lemma_price_flat(s + acc, k);
        let t = ups * (PRICE_SCALE as int) / (k as int);
        assert(ups * (PRICE_SCALE as int) >= 0) by (nonlinear_arith)
            requires
                0 <= ups,
        ;
        vstd::arithmetic::div_mod::lemma_div_pos_is_pos(ups * (PRICE_SCALE as int), k as int);
        assert(spec_buy_rec(steps, ups, s, k, 0, acc) == spec_buy_rec(
            steps - 1,
            ups,
            s,
            k,
            0,
            (acc + t) as u64,
        ));
        lemma_buy_rec_flat(steps - 1, ups, s, k, (acc + t) as u64);
        assert(acc + t + (steps - 1) * t == acc + steps * t) by (nonlinear_arith);
    }
}

/// On a flat curve every sell step yields the same value, so a successful
/// sum is exactly the number of remaining steps times the per-step value.
proof fn lemma_sell_rec_flat(i: int, tp: u64, cs: u64, k: u64, acc: u64)
    requires
        k > 0,
        0 <= i <= 100,
        spec_sell_rec(i, tp, cs, k, 0, acc) is Ok,
    ensures
        spec_sell_rec(i, tp, cs, k, 0, acc)->Ok_0 == acc + (100 - i) * (tp * (k as int)
            / (PRICE_SCALE as int)),
    decreases 100 - i,
{
    if i >= 100 {
        assert((100 - i) * (tp * (k as int) / (PRICE_SCALE as int)) == 0) by (nonlinear_arith)
            requires
                i == 100,
        ;
    } else {
        lemma_price_flat(cs - tp * i, k);
        let v = tp * (k as int) / (PRICE_SCALE as int);
        assert(tp * (k as int) >= 0) by (nonlinear_arith)
            requires
                0 <= tp,
                0 <= k,
        ;
        vstd::arithmetic::div_mod::lemma_div_pos_is_pos(tp * (k as int), PRICE_SCALE as int);
        assert(spec_sell_rec(i, tp, cs, k, 0, acc) == spec_sell_rec(
            i + 1,
            tp,
            cs,
            k,
            0,
            (acc + v) as u64,
        ));
        lemma_sell_rec_flat(i + 1, tp, cs, k, (acc + v) as u64);
        assert(acc + v + (100 - (i + 1)) * v == acc + (100 - i) * v) by (nonlinear_arith);
    }
}

/// Law (flat curve): a round trip never creates value. On a curve with
/// exponent zero, buying with `usdc_amount` and then selling every token
/// received straight back yields at most `usdc_amount` (in fact far less:
/// the buy-side descaling keeps a wide spread). The exponent-zero
/// restriction is what makes the two Riemann sums comparable step by step.
pub proof fn lemma_curve_round_trip_flat(usdc_amount: u64, supply: u64, k: u64)
    requires
        k > 0,
        spec_tokens_out(usdc_amount, supply, k, 0) is Ok,
        supply + spec_tokens_out(usdc_amount, supply, k, 0)->Ok_0 <= u64::MAX,
        spec_usdc_out(
            spec_tokens_out(usdc_amount, supply, k, 0)->Ok_0,
            (supply + spec_tokens_out(usdc_amount, supply, k, 0)->Ok_0) as u64,
            k,
            0,
        ) is Ok,
    ensures
        spec_usdc_out(
            spec_tokens_out(usdc_amount, supply, k, 0)->Ok_0,
            (supply + spec_tokens_out(usdc_amount, supply, k, 0)->Ok_0) as u64,
            k,
            0,
        )->Ok_0 <= usdc_amount,
{
    let scale = PRICE_SCALE as int;
    let ups: u64 = usdc_amount / 100;
    let t1 = ups * scale / (k as int);

    // The buy sum is 100 equal steps of t1, descaled by 1000.
    lemma_buy_rec_flat(100, ups, supply, k, 0);
    let tokens = spec_tokens_out(usdc_amount, supply, k, 0)->Ok_0;
    assert(tokens == (100 * t1) / 1000);

    // The sell sum is 100 equal steps of v1 = tp * k / scale.
    let new_supply = (supply + tokens) as u64;
    let tp: u64 = tokens / 100;
    lemma_sell_rec_flat(0, tp, new_supply, k, 0);
    let v1 = tp * (k as int) / scale;
    let value = spec_usdc_out(tokens, new_supply, k, 0)->Ok_0;
    assert(value == 100 * v1);

    // Collapse the constant divisions: tp == t1 / 100_000.
    assert(t1 >= 0) by {
        vstd::arithmetic::div_mod::lemma_div_pos_is_pos(ups * scale, k as int);
        assert(ups * scale >= 0) by (nonlinear_arith)
            requires
                0 <= ups,
                0 < scale,
        ;
    }
    assert(tp == ((100 * t1) / 1000) / 100);
    assert(((100 * t1) / 1000) / 100 == (100 * t1) / 100000) by {
        vstd::arithmetic::div_mod::lemma_div_denominator(100 * t1, 1000, 100);
    }
    assert((100 * t1) / 100000 == (t1 * 100) / (100int * 1000));
    assert((t1 * 100) / (100int * 1000) == ((t1 * 100) / 100) / 1000) by {
        vstd::arithmetic::div_mod::lemma_div_denominator(t1 * 100, 100, 1000);
    }
    assert((t1 * 100) / 100 == t1) by {
        vstd::arithmetic::div_mod::lemma_div_by_multiple(t1, 100);
    }
    assert(tp == t1 / 1000);

    // Bounds out of the two floored divisions.
    assert(1000 * (t1 / 1000) <= t1) by {
        vstd::arithmetic::div_mod::lemma_fundamental_div_mod(t1, 1000);
        vstd::arithmetic::div_mod::lemma_mod_division_less_than_divisor(t1, 1000);
    }
    assert((k as int) * t1 <= ups * scale) by {
        vstd::arithmetic::div_mod::lemma_fundamental_div_mod(ups * scale, k as int);
        vstd::arithmetic::div_mod::lemma_mod_division_less_than_divisor(ups * scale, k as int);
    }

    // Hence 1000 * (tp * k) <= ups * scale, so tp * k <= ups * 1_000_000.
    assert(1000 * (tp * (k as int)) <= ups * scale) by (nonlinear_arith)
        requires
            1000 * (tp as int) <= t1,
            (k as int) * t1 <= ups * scale,
            0 <= tp,
            0 < k,
            0 <= t1,
    ;
    assert(ups * scale == 1000 * (ups * 1_000_000)) by (nonlinear_arith)
        requires
            scale == 1_000_000_000,
    ;
    assert(tp * (k as int) <= ups * 1_000_000) by {
        vstd::arithmetic::div_mod::lemma_div_is_ordered(
            1000 * (tp * (k as int)),
            1000 * (ups * 1_000_000),
            1000,
        );
        vstd::arithmetic::div_mod::lemma_div_multiples_vanish(tp * (k as int), 1000);
        vstd::arithmetic::div_mod::lemma_div_multiples_vanish(ups * 1_000_000, 1000);
    }

    // So each sell step is worth at most ups / 1000.
    assert(v1 <= (ups * 1_000_000) / scale) by {
        vstd::arithmetic::div_mod::lemma_div_is_ordered(
            tp * (k as int),
            ups * 1_000_000,
            scale,
        );
    }
    assert((ups * 1_000_000) / scale == ups / 1000) by {
        assert((ups * 1_000_000) / scale == ((ups * 1_000_000) / 1_000_000) / 1000) by {
            vstd::arithmetic::div_mod::lemma_div_denominator(ups * 1_000_000, 1_000_000, 1000);
        }
        assert((ups * 1_000_000) / 1_000_000 == ups) by {
            vstd::arithmetic::div_mod::lemma_div_by_multiple(ups as int, 1_000_000);
        }
    }

    // Total: value <= 100 * (ups / 1000) <= ups <= usdc_amount.
    assert(1000 * (ups / 1000) <= ups) by {
        vstd::arithmetic::div_mod::lemma_fundamental_div_mod(ups as int, 1000);
        vstd::arithmetic::div_mod::lemma_mod_division_less_than_divisor(ups as int, 1000);
    }
    assert(ups / 1000 >= 0) by {
        vstd::arithmetic::div_mod::lemma_div_pos_is_pos(ups as int, 1000);
    }
    assert(value <= ups);
    assert(ups <= usdc_amount) by {
        vstd::arithmetic::div_mod::lemma_div_nonincreasing(usdc_amount as int, 100);
    }
}

} // verus!
