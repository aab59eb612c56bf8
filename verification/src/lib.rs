//! Verified engine for simulated cross-venue arbitrage on binary-outcome
//! markets: order-book simulation and matching, VWAP-based arbitrage
//! detection, risk gating, and average-cost position/PnL tracking.
//!
//! All prices and money amounts are fixed-point integers in units of
//! 1/10_000 of the quoted price (so a quoted price of 0.6 is stored as
//! 6_000); quantities are whole units. This keeps every computation exact
//! and verifiable.

pub mod market;
pub mod pnl;
pub mod risk;
pub mod strategy;

use vstd::prelude::*;

verus! {

/// Whether a mathematical integer is representable as an `i64`.
pub open spec fn i64_fits(x: int) -> bool {
    i64::MIN <= x <= i64::MAX
}

} // verus!
