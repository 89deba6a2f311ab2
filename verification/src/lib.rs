//! Pricing and settlement engine for binary-outcome prediction markets.
//!
//! Traders exchange two outcome tokens (one per side of a sporting event)
//! against a stable value asset. Prices move either through a constant-product
//! liquidity pool ([`pool`]) or through a bonding curve priced off outstanding
//! supply ([`curve`], with a cheaper linear variant in [`linear`]). After the
//! event resolves, winning-token holders redeem a proportional share of the
//! accumulated pool value.
//!
//! The engine owns the numeric and lifecycle logic only: every quote, reserve
//! update, state transition and payout is computed here with checked
//! fixed-point arithmetic and carries a verified contract. Balance movements
//! themselves (mint, burn, transfer) are requests against an external ledger;
//! each operation returns the amounts to move, and the caller performs the
//! moves atomically with the state update.

pub mod curve;
pub mod errors;
pub mod linear;
pub mod math;
pub mod pool;
