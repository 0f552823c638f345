//! Error codes of the distribution engine.

use vstd::prelude::*;

verus! {

/// Why a call into the engine was rejected.  Every rejection leaves the
/// persistent state exactly as it was before the call.
#[derive(Clone, Copy, Debug, PartialEq, Eq, Structural)]
pub enum DammError {
    /// The position configuration may accrue base fees; not quote-only.
    NotQuoteOnly,
    /// Base fees were observed during a claim; distribution aborted.
    BaseFeesObserved,
    /// The day gate is not open: too early to open a new day, or the
    /// current day is already closed.
    DayGateNotOpen,
    /// The treasury balance cannot cover a transfer.
    InsufficientTreasury,
    /// The requested page is not the next expected page of the day, or it
    /// lies beyond the processed-page capacity.
    InvalidPaginationCursor,
    /// A payout fell below the configured minimum and was carried forward.
    MinPayoutNotMet,
    /// A locked-amount record could not be read.
    StreamflowReadError,
    /// The page was already processed today.
    AlreadyProcessedPage,
    /// The supplied quote mint does not match the pool's quote mint.
    InvalidQuoteMint,
    /// The tick range is empty or inverted.
    InvalidTickRange,
    /// The investor fee share exceeds 10000 basis points.
    InvalidFeeShareBps,
    /// An addition or multiplication left the representable range.
    ArithmeticOverflow,
}

} // verus!
