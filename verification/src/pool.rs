use vstd::arithmetic::div_mod::{
    lemma_div_is_ordered, lemma_div_is_ordered_by_denominator, lemma_div_multiples_vanish,
    lemma_div_of0, lemma_fundamental_div_mod, lemma_mod_division_less_than_divisor,
    lemma_multiply_divide_le, lemma_multiply_divide_lt,
};
use vstd::prelude::*;

use crate::errors::ErrorCode;
use crate::math::mul_div_u64;

verus! {

/// One side of a binary-outcome market.
#[derive(Clone, Copy, Debug, PartialEq, Eq, Structural)]
pub enum TeamSide {
    Home,
    Away,
}

/// A market over one sporting event, priced by an attached constant-product
/// pool. External accounts (authority, the two outcome-token mints) are
/// carried as plain identifiers; the engine never dereferences them.
///
/// The winner is set exactly once, by `resolve_market`, which also
/// deactivates the market.
pub struct Market {
    pub authority: u64,
    pub game_id: String,
    pub home_team: String,
    pub away_team: String,
    pub home_mint: u64,
    pub away_mint: u64,
    pub is_active: bool,
    pub winner: Option<TeamSide>,
}

impl Market {
    /// Well-formedness: the display strings are bounded and an active market
    /// has no winner yet.
    pub open spec fn wf(self) -> bool {
        &&& self.game_id@.len() <= 50
        &&& self.home_team@.len() <= 20
        &&& self.away_team@.len() <= 20
        &&& self.is_active ==> self.winner is None
    }
}

/// The two outcome-token reserves backing swap pricing for one market.
///
/// `constant_k` records the reserve product at initialization; it bounds
/// slippage at inception and is informational only — it is not held constant
/// across trades.
#[derive(Clone, Copy, Debug, PartialEq, Eq, Structural)]
pub struct LiquidityPool {
    pub market: u64,
    pub home_vault: u64,
    pub away_vault: u64,
    pub home_reserve: u64,
    pub away_reserve: u64,
    pub constant_k: u64,
}

impl LiquidityPool {
    /// Both reserves stay strictly positive after initialization; no swap can
    /// drain a side completely.
    pub open spec fn wf(self) -> bool {
        self.home_reserve > 0 && self.away_reserve > 0
    }
}

/// Trade record emitted for every swap, for external observers; the engine
/// does not persist it. `token_in`/`token_out` identify the mints, and the
/// reserve fields carry the post-trade state.
#[derive(Clone, Copy, Debug, PartialEq, Eq, Structural)]
pub struct SwapEvent {
    pub user: u64,
    pub token_in: u64,
    pub token_out: u64,
    pub amount_in: u64,
    pub amount_out: u64,
    pub home_reserve: u64,
    pub away_reserve: u64,
}

/// Notification emitted when a market is resolved.
#[derive(Debug)]
pub struct MarketResolvedEvent {
    pub market: u64,
    pub game_id: String,
    pub winner: TeamSide,
}

/// The constant-product quote as a mathematical value:
/// `floor(reserve_out * amount_in / (reserve_in + amount_in))`.
pub open spec fn spec_quote(amount_in: int, reserve_in: int, reserve_out: int) -> int {
    reserve_out * amount_in / (reserve_in + amount_in)
}

/// What quoting returns on every input: the floored constant-product formula,
/// or `MathOverflow` when `reserve_in + amount_in` leaves the 64-bit range
/// (the reserve update could not be represented) or is zero (the division is
/// undefined).
pub open spec fn spec_amount_out(amount_in: u64, reserve_in: u64, reserve_out: u64) -> Result<
    u64,
    ErrorCode,
> {
    if reserve_in + amount_in > u64::MAX || reserve_in + amount_in == 0 {
        Result::Err(ErrorCode::MathOverflow)
    } else {
        Result::Ok(spec_quote(amount_in as int, reserve_in as int, reserve_out as int) as u64)
    }
}

/// Quote for swapping `amount_in` of one side against the pool:
/// `amount_out = floor(reserve_out * amount_in / (reserve_in + amount_in))`,
/// computed over a 128-bit intermediate.
///
/// The quote never reaches `reserve_out` on a live pool (strict bound below),
/// so a swap can never fully drain a reserve; a zero input is a valid no-op
/// quote of zero.
pub fn calculate_amount_out(amount_in: u64, reserve_in: u64, reserve_out: u64) -> (r: Result<
    u64,
    ErrorCode,
>)
    ensures
        r == spec_amount_out(amount_in, reserve_in, reserve_out),
        r is Ok ==> r->Ok_0 <= reserve_out,
        r is Ok && amount_in > 0 && reserve_in > 0 ==> r->Ok_0 < reserve_out || reserve_out == 0,
        r is Ok && amount_in == 0 ==> r->Ok_0 == 0,
{
    let denominator: u64 = match reserve_in.checked_add(amount_in) {
        Some(d) => d,
        None => {
            return Err(ErrorCode::MathOverflow);
        },
    };
    if denominator == 0 {
        return Err(ErrorCode::MathOverflow);
    }
    proof {
        assert(reserve_out * amount_in <= denominator * reserve_out) by (nonlinear_arith)
            requires
                amount_in <= denominator,
                0 <= reserve_out,
        ;
        lemma_multiply_divide_le(
            reserve_out as int * amount_in as int,
            denominator as int,
            reserve_out as int,
        );
        if amount_in > 0 && reserve_in > 0 && reserve_out > 0 {
            assert(reserve_out * amount_in < denominator * reserve_out) by (nonlinear_arith)
                requires
                    amount_in < denominator,
                    0 < reserve_out,
            ;
            lemma_multiply_divide_lt(
                reserve_out as int * amount_in as int,
                denominator as int,
                reserve_out as int,
            );
        }
        if amount_in == 0 {
            lemma_div_of0(denominator as int);
        }
    }
    mul_div_u64(reserve_out, amount_in, denominator)
}

/// Swap `amount_in` HOME tokens for AWAY tokens.
///
/// Quotes with `calculate_amount_out` over the (home, away) reserves, rejects
/// the trade with `SlippageExceeded` when the quote is below
/// `minimum_amount_out`, and otherwise moves the reserves:
/// `home += amount_in`, `away -= amount_out`. The returned event carries the
/// amounts the ledger must move (`amount_in` from the user into the home
/// vault, `amount_out` from the away vault to the user) and the post-trade
/// reserves. On any error the pool is unchanged.
pub fn swap_home_for_away(
    market: &Market,
    pool: &mut LiquidityPool,
    user: u64,
    amount_in: u64,
    minimum_amount_out: u64,
) -> (r: Result<SwapEvent, ErrorCode>)
    requires
        old(pool).wf(),
    ensures
        final(pool).wf(),
        match spec_amount_out(amount_in, old(pool).home_reserve, old(pool).away_reserve) {
            Result::Ok(amount_out) => if amount_out < minimum_amount_out {
                r == Result::<SwapEvent, ErrorCode>::Err(ErrorCode::SlippageExceeded) && *final(pool) == *old(pool)
            } else {
                &&& r == Result::<SwapEvent, ErrorCode>::Ok(
                    (SwapEvent {
                        user,
                        token_in: market.home_mint,
                        token_out: market.away_mint,
                        amount_in,
                        amount_out,
                        home_reserve: (old(pool).home_reserve + amount_in) as u64,
                        away_reserve: (old(pool).away_reserve - amount_out) as u64,
                    }),
                )
                &&& final(pool).home_reserve == old(pool).home_reserve + amount_in
                &&& final(pool).away_reserve == old(pool).away_reserve - amount_out
                &&& final(pool).market == old(pool).market
                &&& final(pool).home_vault == old(pool).home_vault
                &&& final(pool).away_vault == old(pool).away_vault
                &&& final(pool).constant_k == old(pool).constant_k
            },
            Result::Err(e) => r == Result::<SwapEvent, ErrorCode>::Err(e) && *final(pool) == *old(pool),
        },
{
    let amount_out: u64 = match calculate_amount_out(
        amount_in,
        pool.home_reserve,
        pool.away_reserve,
    ) {
        Ok(a) => a,
        Err(e) => {
            return Err(e);
        },
    };
    if amount_out < minimum_amount_out {
        return Err(ErrorCode::SlippageExceeded);
    }
    let new_home: u64 = pool.home_reserve + amount_in;
    let new_away: u64 = pool.away_reserve - amount_out;
    pool.home_reserve = new_home;
    pool.away_reserve = new_away;
    Ok(
        SwapEvent {
            user,
            token_in: market.home_mint,
            token_out: market.away_mint,
            amount_in,
            amount_out,
            home_reserve: new_home,
            away_reserve: new_away,
        },
    )
}

/// Swap `amount_in` AWAY tokens for HOME tokens; the mirror image of
/// `swap_home_for_away`, quoting over the (away, home) reserves.
pub fn swap_away_for_home(
    market: &Market,
    pool: &mut LiquidityPool,
    user: u64,
    amount_in: u64,
    minimum_amount_out: u64,
) -> (r: Result<SwapEvent, ErrorCode>)
    requires
        old(pool).wf(),
    ensures
        final(pool).wf(),
        match spec_amount_out(amount_in, old(pool).away_reserve, old(pool).home_reserve) {
            Result::Ok(amount_out) => if amount_out < minimum_amount_out {
                r == Result::<SwapEvent, ErrorCode>::Err(ErrorCode::SlippageExceeded) && *final(pool) == *old(pool)
            } else {
                &&& r == Result::<SwapEvent, ErrorCode>::Ok(
                    (SwapEvent {
                        user,
                        token_in: market.away_mint,
                        token_out: market.home_mint,
                        amount_in,
                        amount_out,
                        home_reserve: (old(pool).home_reserve - amount_out) as u64,
                        away_reserve: (old(pool).away_reserve + amount_in) as u64,
                    }),
                )
                &&& final(pool).away_reserve == old(pool).away_reserve + amount_in
                &&& final(pool).home_reserve == old(pool).home_reserve - amount_out
                &&& final(pool).market == old(pool).market
                &&& final(pool).home_vault == old(pool).home_vault
                &&& final(pool).away_vault == old(pool).away_vault
                &&& final(pool).constant_k == old(pool).constant_k
            },
            Result::Err(e) => r == Result::<SwapEvent, ErrorCode>::Err(e) && *final(pool) == *old(pool),
        },
{
    let amount_out: u64 = match calculate_amount_out(
        amount_in,
        pool.away_reserve,
        pool.home_reserve,
    ) {
        Ok(a) => a,
        Err(e) => {
            return Err(e);
        },
    };
    if amount_out < minimum_amount_out {
        return Err(ErrorCode::SlippageExceeded);
    }
    let new_away: u64 = pool.away_reserve + amount_in;
    let new_home: u64 = pool.home_reserve - amount_out;
    pool.home_reserve = new_home;
    pool.away_reserve = new_away;
    Ok(
        SwapEvent {
            user,
            token_in: market.away_mint,
            token_out: market.home_mint,
            amount_in,
            amount_out,
            home_reserve: new_home,
            away_reserve: new_away,
        },
    )
}

/// Create a market in its pre-funding state: inactive, no winner, with the
/// identifiers of its authority and outcome-token mints recorded. The
/// authority is immutable from here on — no operation of the engine writes
/// it.
pub fn create_market(
    authority: u64,
    game_id: String,
    home_team: String,
    away_team: String,
    home_mint: u64,
    away_mint: u64,
) -> (m: Market)
    requires
        game_id@.len() <= 50,
        home_team@.len() <= 20,
        away_team@.len() <= 20,
    ensures
        m.authority == authority,
        m.game_id@ == game_id@,
        m.home_team@ == home_team@,
        m.away_team@ == away_team@,
        m.home_mint == home_mint,
        m.away_mint == away_mint,
        !m.is_active,
        m.winner is None,
        m.wf(),
{
    Market {
        authority,
        game_id,
        home_team,
        away_team,
        home_mint,
        away_mint,
        is_active: false,
        winner: None,
    }
}

/// Fund the pool for the first time and activate the market.
///
/// Both initial reserves must be positive; the informational constant
/// `k = reserve_a * reserve_b` must be representable, otherwise the operation
/// fails with `MathOverflow` and nothing changes. On success the caller mints
/// `initial_home_amount` and `initial_away_amount` outcome tokens into the
/// returned pool's vaults.
pub fn initialize_pool(
    market: &mut Market,
    market_id: u64,
    home_vault: u64,
    away_vault: u64,
    initial_home_amount: u64,
    initial_away_amount: u64,
) -> (r: Result<LiquidityPool, ErrorCode>)
    requires
        !old(market).is_active,
        old(market).winner is None,
        initial_home_amount > 0,
        initial_away_amount > 0,
    ensures
        old(market).wf() ==> final(market).wf(),
        initial_home_amount * initial_away_amount > u64::MAX ==> r == Result::<
            LiquidityPool,
            ErrorCode,
        >::Err(ErrorCode::MathOverflow) && *final(market) == *old(market),
        initial_home_amount * initial_away_amount <= u64::MAX ==> {
            &&& r == Result::<LiquidityPool, ErrorCode>::Ok(
                (LiquidityPool {
                    market: market_id,
                    home_vault,
                    away_vault,
                    home_reserve: initial_home_amount,
                    away_reserve: initial_away_amount,
                    constant_k: (initial_home_amount * initial_away_amount) as u64,
                }),
            )
            &&& r->Ok_0.wf()
            &&& final(market).is_active
            &&& final(market).authority == old(market).authority
            &&& final(market).game_id@ == old(market).game_id@
            &&& final(market).home_team@ == old(market).home_team@
            &&& final(market).away_team@ == old(market).away_team@
            &&& final(market).home_mint == old(market).home_mint
            &&& final(market).away_mint == old(market).away_mint
            &&& final(market).winner is None
        },
{
    let constant_k: u64 = match initial_home_amount.checked_mul(initial_away_amount) {
        Some(k) => k,
        None => {
            return Err(ErrorCode::MathOverflow);
        },
    };
    market.is_active = true;
    Ok(
        LiquidityPool {
            market: market_id,
            home_vault,
            away_vault,
            home_reserve: initial_home_amount,
            away_reserve: initial_away_amount,
            constant_k,
        },
    )
}

/// Resolve the market: record the winning side and deactivate trading.
///
/// Fails with `MarketNotActive` unless the market is active, and with
/// `MarketAlreadyResolved` if a winner was already set; on failure nothing
/// changes. Resolution is irreversible — no operation clears the winner.
pub fn resolve_market(market: &mut Market, market_id: u64, winner: TeamSide) -> (r: Result<
    MarketResolvedEvent,
    ErrorCode,
>)
    ensures
        old(market).wf() ==> final(market).wf(),
        !old(market).is_active ==> r == Result::<MarketResolvedEvent, ErrorCode>::Err(
            ErrorCode::MarketNotActive,
        ) && *final(market) == *old(market),
        old(market).is_active && old(market).winner is Some ==> r == Result::<
            MarketResolvedEvent,
            ErrorCode,
        >::Err(ErrorCode::MarketAlreadyResolved) && *final(market) == *old(market),
        old(market).is_active && old(market).winner is None ==> {
            &&& r is Ok
            &&& r->Ok_0.market == market_id
            &&& r->Ok_0.game_id@ == old(market).game_id@
            &&& r->Ok_0.winner == winner
            &&& final(market).winner == Some(winner)
            &&& !final(market).is_active
            &&& final(market).authority == old(market).authority
            &&& final(market).game_id@ == old(market).game_id@
            &&& final(market).home_team@ == old(market).home_team@
            &&& final(market).away_team@ == old(market).away_team@
            &&& final(market).home_mint == old(market).home_mint
            &&& final(market).away_mint == old(market).away_mint
        },
{
    if !market.is_active {
        return Err(ErrorCode::MarketNotActive);
    }
    if market.winner.is_some() {
        return Err(ErrorCode::MarketAlreadyResolved);
    }
    market.winner = Some(winner);
    market.is_active = false;
    Ok(MarketResolvedEvent { market: market_id, game_id: market.game_id.clone(), winner })
}

/// Comparing two floored fractions by cross-multiplication:
/// `p1/d1 <= p2/d2` whenever `p1 * d2 <= p2 * d1`.
proof fn lemma_div_le_div(p1: int, d1: int, p2: int, d2: int)
    requires
        0 <= p1,
        0 < d1,
        0 < d2,
        p1 * d2 <= p2 * d1,
    ensures
        p1 / d1 <= p2 / d2,
{
    let q = p1 / d1;
    lemma_fundamental_div_mod(p1, d1);
    lemma_mod_division_less_than_divisor(p1, d1);
    assert(q * d1 <= p1) by (nonlinear_arith)
        requires
            p1 == d1 * q + p1 % d1,
            p1 % d1 >= 0,
    ;
    assert(q * d2 <= p2) by (nonlinear_arith)
        requires
            q * d1 <= p1,
            p1 * d2 <= p2 * d1,
            0 < d1,
            0 < d2,
    ;
    lemma_div_is_ordered(q * d2, p2, d2);
    lemma_div_multiples_vanish(q, d2);
    assert(q * d2 == d2 * q) by (nonlinear_arith);
}

/// Law: for a fixed pool, the quote is monotonically non-decreasing in the
/// input amount — paying more never returns fewer tokens.
pub proof fn lemma_quote_monotonic_amount_in(
    amount_in1: u64,
    amount_in2: u64,
    reserve_in: u64,
    reserve_out: u64,
)
    requires
        amount_in1 <= amount_in2,
        reserve_in > 0,
    ensures
        spec_quote(amount_in1 as int, reserve_in as int, reserve_out as int) <= spec_quote(
            amount_in2 as int,
            reserve_in as int,
            reserve_out as int,
        ),
{
    let x1 = amount_in1 as int;
    let x2 = amount_in2 as int;
    let a = reserve_in as int;
    let b = reserve_out as int;
    assert((b * x1) * (a + x2) <= (b * x2) * (a + x1)) by (nonlinear_arith)
        requires
            0 <= x1 <= x2,
            0 < a,
            0 <= b,
    ;
    assert(b * x1 >= 0) by (nonlinear_arith)
        requires
            0 <= x1,
            0 <= b,
    ;
    lemma_div_le_div(b * x1, a + x1, b * x2, a + x2);
}

/// Law: for a fixed input and input-side reserve, the quote grows
/// monotonically with the output-side reserve.
pub proof fn lemma_quote_monotonic_reserve_out(
    amount_in: u64,
    reserve_in: u64,
    reserve_out1: u64,
    reserve_out2: u64,
)
    requires
        reserve_out1 <= reserve_out2,
        reserve_in + amount_in > 0,
    ensures
        spec_quote(amount_in as int, reserve_in as int, reserve_out1 as int) <= spec_quote(
            amount_in as int,
            reserve_in as int,
            reserve_out2 as int,
        ),
{
    let x = amount_in as int;
    assert(reserve_out1 * x <= reserve_out2 * x) by (nonlinear_arith)
        requires
            reserve_out1 <= reserve_out2,
            0 <= x,
    ;
    lemma_div_is_ordered(
        reserve_out1 as int * x,
        reserve_out2 as int * x,
        reserve_in as int + x,
    );
}

/// Law: for a fixed input and output-side reserve, the quote shrinks
/// monotonically as the input-side reserve grows.
pub proof fn lemma_quote_antitone_reserve_in(
    amount_in: u64,
    reserve_in1: u64,
    reserve_in2: u64,
    reserve_out: u64,
)
    requires
        reserve_in1 <= reserve_in2,
        reserve_in1 + amount_in > 0,
    ensures
        spec_quote(amount_in as int, reserve_in2 as int, reserve_out as int) <= spec_quote(
            amount_in as int,
            reserve_in1 as int,
            reserve_out as int,
        ),
{
    let x = amount_in as int;
    assert(reserve_out * x >= 0) by (nonlinear_arith)
        requires
            0 <= x,
            0 <= reserve_out,
    ;
    lemma_div_is_ordered_by_denominator(
        reserve_out as int * x,
        reserve_in1 as int + x,
        reserve_in2 as int + x,
    );
}

/// Law: a round trip never creates value. Swapping `amount_in` one way and
/// then swapping the entire proceeds straight back yields at most
/// `amount_in`; the difference is the spread the convex price path keeps.
pub proof fn lemma_swap_round_trip(amount_in: u64, reserve_in: u64, reserve_out: u64)
    requires
        reserve_in > 0,
        reserve_out > 0,
        reserve_in + amount_in <= u64::MAX,
    ensures
        ({
            let first = spec_quote(amount_in as int, reserve_in as int, reserve_out as int);
            let second = spec_quote(
                first,
                reserve_out - first,
                reserve_in + amount_in,
            );
            second <= amount_in
        }),
{
    let x = amount_in as int;
    let a = reserve_in as int;
    let b = reserve_out as int;
    let first = spec_quote(x, a, b);
    lemma_fundamental_div_mod(b * x, a + x);
    lemma_mod_division_less_than_divisor(b * x, a + x);
    assert((a + x) * first <= b * x) by (nonlinear_arith)
        requires
            b * x == (a + x) * ((b * x) / (a + x)) + (b * x) % (a + x),
            (b * x) % (a + x) >= 0,
            first == (b * x) / (a + x),
    ;
    lemma_multiply_divide_le((a + x) * first, b, x);
    assert((b - first) + first == b);
}


/// Law: a swap never shrinks the reserve product. The floored quote takes
/// out little enough that `reserve_in * reserve_out` is non-decreasing
/// across every trade, which is what lets the product recorded at
/// initialization serve as a slippage floor.
pub proof fn lemma_swap_preserves_product(amount_in: u64, reserve_in: u64, reserve_out: u64)
    requires
        reserve_in > 0,
    ensures
        ({
            let out = spec_quote(amount_in as int, reserve_in as int, reserve_out as int);
            (reserve_in + amount_in) * (reserve_out - out) >= reserve_in * reserve_out
        }),
{
    let x = amount_in as int;
    let a = reserve_in as int;
    let b = reserve_out as int;
    let out = spec_quote(x, a, b);
    lemma_fundamental_div_mod(b * x, a + x);
    lemma_mod_division_less_than_divisor(b * x, a + x);
    assert((a + x) * out <= b * x) by (nonlinear_arith)
        requires
            b * x == (a + x) * ((b * x) / (a + x)) + (b * x) % (a + x),
            (b * x) % (a + x) >= 0,
            out == (b * x) / (a + x),
    ;
    assert((a + x) * (b - out) >= a * b) by (nonlinear_arith)
        requires
            (a + x) * out <= b * x,
    ;
}

} // verus!
