use vstd::prelude::*;

use crate::errors::ErrorCode;
use crate::math::mul_div_u64;

verus! {

/// Supply granularity of the linear curve: the price climbs by `slope` once
/// per million token units outstanding.
pub const SUPPLY_STEP: u64 = 1_000_000;

/// A market priced by the linear curve
/// `price(s) = base_price + slope * floor(s / 1_000_000)`: a cheaper
/// discretization than the exponential curve, with single-point buy quoting
/// instead of full integration. The two discretizations are deliberately
/// separate designs — this module applies the single-point rule throughout.
pub struct MarketV2 {
    pub authority: u64,
    pub game_id: String,
    pub team_a: String,
    pub team_b: String,
    pub team_a_mint: u64,
    pub team_b_mint: u64,
    pub usdc_vault: u64,
    pub base_price: u64,
    pub slope: u64,
    pub team_a_supply: u64,
    pub team_b_supply: u64,
    pub pool_value: u64,
    pub trading_halted: bool,
    pub is_resolved: bool,
    pub winner: Option<u8>,
}

impl MarketV2 {
    /// Well-formedness: bounded display strings, a winner exactly when
    /// resolved, a winner that names a real side, and no resolution without
    /// a prior halt.
    pub open spec fn wf(self) -> bool {
        &&& self.game_id@.len() <= 50
        &&& self.team_a@.len() <= 20
        &&& self.team_b@.len() <= 20
        &&& self.is_resolved <==> self.winner is Some
        &&& self.winner is Some ==> self.winner->0 <= 1
        &&& self.is_resolved ==> self.trading_halted
    }

    /// Outstanding supply of one side (0 = team A, 1 = team B).
    pub open spec fn side_supply(self, team: u8) -> u64 {
        if team == 0 {
            self.team_a_supply
        } else {
            self.team_b_supply
        }
    }
}

/// What the linear buy quote returns on every input: with
/// `start_price = base_price + slope * floor(supply / 1_000_000)` (the
/// price at the current supply), zero tokens at a zero price, otherwise the
/// single-point approximation `floor(usdc_amount * 1_000_000 / start_price)`
/// (the factor rescales value into 6-decimal token units). `MathOverflow`
/// whenever the price or the quote leaves the 64-bit range.
pub open spec fn spec_tokens_linear(
    usdc_amount: u64,
    current_supply: u64,
    base_price: u64,
    slope: u64,
) -> Result<u64, ErrorCode> {
    let climb = slope * (current_supply / (SUPPLY_STEP as u64));
    if climb > u64::MAX {
        Result::Err(ErrorCode::MathOverflow)
    } else if base_price + climb > u64::MAX {
        Result::Err(ErrorCode::MathOverflow)
    } else {
        let start_price = base_price + climb;
        if start_price == 0 {
            Result::Ok(0)
        } else if usdc_amount * (SUPPLY_STEP as int) / start_price > u64::MAX {
            Result::Err(ErrorCode::MathOverflow)
        } else {
            Result::Ok((usdc_amount * (SUPPLY_STEP as int) / start_price) as u64)
        }
    }
}

/// Tokens issued for `usdc_amount` at `current_supply` on the linear curve.
///
/// Uses the single-point approximation at the price where the purchase
/// starts; a zero price yields zero tokens rather than an error. Fails with
/// `MathOverflow` instead of wrapping.
pub fn calculate_tokens_linear(
    usdc_amount: u64,
    current_supply: u64,
    base_price: u64,
    slope: u64,
) -> (r: Result<u64, ErrorCode>)
    ensures
        r == spec_tokens_linear(usdc_amount, current_supply, base_price, slope),
{
    let climb: u64 = match slope.checked_mul(current_supply / SUPPLY_STEP) {
        Some(c) => c,
        None => {
            return Err(ErrorCode::MathOverflow);
        },
    };
    let start_price: u64 = match base_price.checked_add(climb) {
        Some(p) => p,
        None => {
            return Err(ErrorCode::MathOverflow);
        },
    };
    if start_price == 0 {
        return Ok(0);
    }
    mul_div_u64(usdc_amount, SUPPLY_STEP, start_price)
}

/// What a linear buy decides on every input: the tokens to mint, or the
/// exact error, checked in order — halted market, side out of range, quote
/// failure, slippage, then representability of the supply and pool updates.
pub open spec fn spec_buy(m: MarketV2, team: u8, usdc_amount: u64, min_tokens_out: u64) -> Result<
    u64,
    ErrorCode,
> {
    if m.trading_halted {
        Result::Err(ErrorCode::TradingHalted)
    } else if team > 1 {
        Result::Err(ErrorCode::InvalidTeam)
    } else {
        match spec_tokens_linear(usdc_amount, m.side_supply(team), m.base_price, m.slope) {
            Result::Err(e) => Result::Err(e),
            Result::Ok(t) => if t < min_tokens_out {
                Result::Err(ErrorCode::SlippageExceeded)
            } else if m.side_supply(team) + t > u64::MAX {
                Result::Err(ErrorCode::MathOverflow)
            } else if m.pool_value + usdc_amount > u64::MAX {
                Result::Err(ErrorCode::MathOverflow)
            } else {
                Result::Ok(t)
            },
        }
    }
}

/// Create a linear-curve market with `base_price` and `slope` fixed for
/// life. Both supplies and the pool value start at zero and the market is
/// immediately open for trading.
pub fn create_market_v2(
    authority: u64,
    game_id: String,
    team_a: String,
    team_b: String,
    team_a_mint: u64,
    team_b_mint: u64,
    usdc_vault: u64,
    base_price: u64,
    slope: u64,
) -> (m: MarketV2)
    requires
        game_id@.len() <= 50,
        team_a@.len() <= 20,
        team_b@.len() <= 20,
    ensures
        m.authority == authority,
        m.game_id@ == game_id@,
        m.team_a@ == team_a@,
        m.team_b@ == team_b@,
        m.team_a_mint == team_a_mint,
        m.team_b_mint == team_b_mint,
        m.usdc_vault == usdc_vault,
        m.base_price == base_price,
        m.slope == slope,
        m.team_a_supply == 0,
        m.team_b_supply == 0,
        m.pool_value == 0,
        !m.trading_halted,
        !m.is_resolved,
        m.winner is None,
        m.wf(),
{
    MarketV2 {
        authority,
        game_id,
        team_a,
        team_b,
        team_a_mint,
        team_b_mint,
        usdc_vault,
        base_price,
        slope,
        team_a_supply: 0,
        team_b_supply: 0,
        pool_value: 0,
        trading_halted: false,
        is_resolved: false,
        winner: None,
    }
}

/// Buy `team` tokens with `usdc_amount` of value on the linear curve.
///
/// Decides exactly as `spec_buy`; on success that side's supply and the
/// pool value grow by the trade and the returned amount is what the ledger
/// must mint to the buyer (after moving `usdc_amount` into the vault). On
/// any error the market is unchanged.
pub fn buy_on_curve(
    market: &mut MarketV2,
    team: u8,
    usdc_amount: u64,
    min_tokens_out: u64,
) -> (r: Result<u64, ErrorCode>)
    ensures
        old(market).wf() ==> final(market).wf(),
        match spec_buy(*old(market), team, usdc_amount, min_tokens_out) {
            Result::Ok(t) => {
                &&& r == Result::<u64, ErrorCode>::Ok(t)
                &&& final(market).side_supply(team) == old(market).side_supply(team) + t
                &&& team == 0 ==> final(market).team_b_supply == old(market).team_b_supply
                &&& team == 1 ==> final(market).team_a_supply == old(market).team_a_supply
                &&& final(market).pool_value == old(market).pool_value + usdc_amount
                &&& final(market).authority == old(market).authority
                &&& final(market).game_id@ == old(market).game_id@
                &&& final(market).team_a@ == old(market).team_a@
                &&& final(market).team_b@ == old(market).team_b@
                &&& final(market).team_a_mint == old(market).team_a_mint
                &&& final(market).team_b_mint == old(market).team_b_mint
                &&& final(market).usdc_vault == old(market).usdc_vault
                &&& final(market).base_price == old(market).base_price
                &&& final(market).slope == old(market).slope
                &&& final(market).trading_halted == old(market).trading_halted
                &&& final(market).is_resolved == old(market).is_resolved
                &&& final(market).winner == old(market).winner
            },
            Result::Err(e) => r == Result::<u64, ErrorCode>::Err(e) && *final(market) == *old(
                market,
            ),
        },
{
    if market.trading_halted {
        return Err(ErrorCode::TradingHalted);
    }
    if team > 1 {
        return Err(ErrorCode::InvalidTeam);
    }
    let current_supply: u64 = if team == 0 {
        market.team_a_supply
    } else {
        market.team_b_supply
    };
    let tokens_out: u64 = match calculate_tokens_linear(
        usdc_amount,
        current_supply,
        market.base_price,
        market.slope,
    ) {
        Ok(t) => t,
        Err(e) => {
            return Err(e);
        },
    };
    if tokens_out < min_tokens_out {
        return Err(ErrorCode::SlippageExceeded);
    }
    let new_supply: u64 = match current_supply.checked_add(tokens_out) {
        Some(s) => s,
        None => {
            return Err(ErrorCode::MathOverflow);
        },
    };
    let new_pool_value: u64 = match market.pool_value.checked_add(usdc_amount) {
        Some(v) => v,
        None => {
            return Err(ErrorCode::MathOverflow);
        },
    };
    if team == 0 {
        market.team_a_supply = new_supply;
    } else {
        market.team_b_supply = new_supply;
    }
    market.pool_value = new_pool_value;
    Ok(tokens_out)
}

} // verus!
