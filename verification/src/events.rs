//! Records emitted by the engine.  The surrounding program publishes them;
//! the payout records double as the transfer orders the caller must carry
//! out against custody.

use vstd::prelude::*;

verus! {

/// An honorary position was created together with its policy and progress.
#[derive(Clone, Copy, Debug, PartialEq, Eq, Structural)]
pub struct HonoraryPositionInitialized {
    /// The pool the position belongs to.
    pub pool: u64,
    /// The position itself.
    pub position: u64,
    /// The quote mint the position accrues fees in.
    pub quote_mint: u64,
    /// Lower bound of the position's tick range.
    pub tick_lower: i32,
    /// Upper bound of the position's tick range.
    pub tick_upper: i32,
}

/// Quote fees were claimed from the position for the current page.
#[derive(Clone, Copy, Debug, PartialEq, Eq, Structural)]
pub struct QuoteFeesClaimed {
    /// The newly claimed quote amount.
    pub amount: u64,
}

/// One investor was paid; also the transfer order for that payout.
#[derive(Clone, Copy, Debug, PartialEq, Eq, Structural)]
pub struct InvestorPayout {
    /// Destination quote token account.
    pub investor_quote_ata: u64,
    /// The amount paid.
    pub amount: u64,
    /// The locked amount that determined the share.
    pub locked_amount: u64,
    /// The page the payout was part of.
    pub page_index: u32,
}

/// Summary of one processed (or idempotently skipped) page.
#[derive(Clone, Copy, Debug, PartialEq, Eq, Structural)]
pub struct InvestorPayoutPage {
    /// The page index.
    pub page_index: u32,
    /// Total paid to investors by this call.
    pub paid_total: u64,
}

/// The day was closed and the remainder sent to the creator.
#[derive(Clone, Copy, Debug, PartialEq, Eq, Structural)]
pub struct CreatorPayoutDayClosed {
    /// The day that closed.
    pub day_id: u64,
    /// The amount owed to the creator; also the transfer order.
    pub remainder: u64,
    /// Total paid to investors over the whole day.
    pub total_investor_payout: u64,
}

} // verus!
