//! Distribution engine for a quote-only honorary fee position.
//!
//! Trading-fee income accrued by a single fee-only liquidity position is
//! split between token-locked investors and a creator wallet on a rolling
//! 24-hour cycle, processed as a sequence of bounded pages.  This crate
//! holds the verified core: the day-gate state machine, the pagination and
//! idempotency tracking, and the proportional payout arithmetic with daily
//! cap and dust carry-over.  Token custody, account wiring and the
//! collaborators that claim fees or report locked amounts live outside the
//! crate; the engine receives their reports as plain values and returns the
//! transfers to perform.

pub mod errors;
pub mod events;
pub mod state;
pub mod math;
pub mod engine;
pub mod day;
