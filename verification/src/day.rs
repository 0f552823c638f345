//! Whole-day accounting: a trace-level model of a day processed as a
//! sequence of pages from a fresh open, and the conservation statement
//! over it.
//!
//! The engine processes a day page by page; each page's distributable
//! amount depends on the payouts accumulated before it (through the daily
//! cap), so the day is modelled as a fold over the pages.

use vstd::prelude::*;
use crate::engine::{lemma_fee_quote_bounds, spec_fee_quote_of};
use crate::math::{
    lemma_page_totals_le_quote, lemma_page_zero_locked, lemma_sum_locked_bounds,
    spec_deferred_total, spec_paid_total, sum_locked,
};
use crate::state::{InvestorAccount, Policy};

verus! {

/// One page of a day as the engine saw it: the quote amount its claim
/// reported and the investor records supplied with it.
pub ghost struct DayPage {
    /// The quote amount claimed for this page.
    pub claimed_quote: u64,
    /// The investor records of this page.
    pub investors: Seq<InvestorAccount>,
}

/// The quote amount claimed over the pages of a day.
pub open spec fn spec_day_claimed(pages: Seq<DayPage>) -> int
    decreases pages.len(),
{
    if pages.len() == 0 {
        0
    } else {
        spec_day_claimed(pages.drop_last()) + pages.last().claimed_quote
    }
}

/// Investor payouts accumulated over the pages of a day that opened fresh
/// (no payouts, no carry-over).
pub open spec fn spec_day_cumulative(policy: Policy, pages: Seq<DayPage>) -> int
    decreases pages.len(),
{
    if pages.len() == 0 {
        0
    } else {
        let cumulative = spec_day_cumulative(policy, pages.drop_last());
        let page = pages.last();
        let total = sum_locked(page.investors);
        let fee_quote = spec_fee_quote_of(policy, page.claimed_quote as int, cumulative, total);
        cumulative + spec_paid_total(
            fee_quote,
            total,
            policy.min_payout_lamports as int,
            page.investors,
        )
    }
}

/// Carry-over accumulated over the pages of a day that opened fresh.
pub open spec fn spec_day_carry(policy: Policy, pages: Seq<DayPage>) -> int
    decreases pages.len(),
{
    if pages.len() == 0 {
        0
    } else {
        let cumulative = spec_day_cumulative(policy, pages.drop_last());
        let page = pages.last();
        let total = sum_locked(page.investors);
        let fee_quote = spec_fee_quote_of(policy, page.claimed_quote as int, cumulative, total);
        spec_day_carry(policy, pages.drop_last()) + spec_deferred_total(
            fee_quote,
            total,
            policy.min_payout_lamports as int,
            page.investors,
        )
    }
}

/// The distributable amount of page `k` of the day: its claim's share,
/// clamped by the cap headroom left after the pages before it.
pub open spec fn spec_page_fee_quote(policy: Policy, pages: Seq<DayPage>, k: int) -> int {
    spec_fee_quote_of(
        policy,
        pages[k].claimed_quote as int,
        spec_day_cumulative(policy, pages.take(k)),
        sum_locked(pages[k].investors),
    )
}

/// What page `k` of the day pays its investors.
pub open spec fn spec_page_paid(policy: Policy, pages: Seq<DayPage>, k: int) -> int {
    spec_paid_total(
        spec_page_fee_quote(policy, pages, k),
        sum_locked(pages[k].investors),
        policy.min_payout_lamports as int,
        pages[k].investors,
    )
}

/// What page `k` of the day defers to carry-over.
pub open spec fn spec_page_deferred(policy: Policy, pages: Seq<DayPage>, k: int) -> int {
    spec_deferred_total(
        spec_page_fee_quote(policy, pages, k),
        sum_locked(pages[k].investors),
        policy.min_payout_lamports as int,
        pages[k].investors,
    )
}

/// The day folds decompose into the per-page readings: the last page of a
/// trace contributes its page payout and page deferral.
proof fn lemma_day_unfold(policy: Policy, pages: Seq<DayPage>)
    requires
        pages.len() > 0,
    ensures
        spec_day_cumulative(policy, pages) == spec_day_cumulative(policy, pages.drop_last())
            + spec_page_paid(policy, pages, pages.len() - 1),
        spec_day_carry(policy, pages) == spec_day_carry(policy, pages.drop_last())
            + spec_page_deferred(policy, pages, pages.len() - 1),
{
    assert(pages.take(pages.len() - 1) =~= pages.drop_last());
    assert(pages[pages.len() - 1] == pages.last());
}

/// A page of the trace reads the same through any longer prefix: its fee
/// quote, payout and deferral only depend on the pages before it.
proof fn lemma_page_of_prefix(policy: Policy, pages: Seq<DayPage>, k: int)
    requires
        0 <= k < pages.len() - 1,
    ensures
        spec_page_paid(policy, pages.drop_last(), k) == spec_page_paid(policy, pages, k),
        spec_page_deferred(policy, pages.drop_last(), k) == spec_page_deferred(policy, pages, k),
{
    let prefix = pages.drop_last();
    assert(prefix.take(k) =~= pages.take(k));
    assert(prefix[k] == pages[k]);
}

/// With no deferral on any page, a day accumulates no carry-over.
proof fn lemma_day_carry_zero(policy: Policy, pages: Seq<DayPage>)
    requires
        forall|k: int|
            0 <= k < pages.len() ==> #[trigger] spec_page_deferred(policy, pages, k) == 0,
    ensures
        spec_day_carry(policy, pages) == 0,
    decreases pages.len(),
{
    if pages.len() > 0 {
        let prefix = pages.drop_last();
        assert forall|k: int|
            0 <= k < prefix.len() implies #[trigger] spec_page_deferred(policy, prefix, k)
            == 0 by {
            lemma_page_of_prefix(policy, pages, k);
        }
        lemma_day_carry_zero(policy, prefix);
        lemma_day_unfold(policy, pages);
        assert(spec_page_deferred(policy, pages, pages.len() - 1) == 0);
    }
}

/// When every page pays out exactly what it claimed, the day's cumulative
/// payout equals the day's claimed amount.
proof fn lemma_day_fully_paid(policy: Policy, pages: Seq<DayPage>)
    requires
        forall|k: int|
            0 <= k < pages.len() ==> #[trigger] spec_page_paid(policy, pages, k)
                == pages[k].claimed_quote,
    ensures
        spec_day_cumulative(policy, pages) == spec_day_claimed(pages),
    decreases pages.len(),
{
    if pages.len() > 0 {
        let prefix = pages.drop_last();
        assert forall|k: int|
            0 <= k < prefix.len() implies #[trigger] spec_page_paid(policy, prefix, k)
            == prefix[k].claimed_quote by {
            lemma_page_of_prefix(policy, pages, k);
            assert(prefix[k] == pages[k]);
        }
        lemma_day_fully_paid(policy, prefix);
        lemma_day_unfold(policy, pages);
        assert(spec_page_paid(policy, pages, pages.len() - 1) == pages.last().claimed_quote);
    }
}

/// A page never pays more than it claimed, and never a negative amount.
proof fn lemma_page_paid_within_claim(policy: Policy, pages: Seq<DayPage>, k: int)
    requires
        policy.inv(),
        0 <= k < pages.len(),
    ensures
        0 <= spec_page_paid(policy, pages, k) <= pages[k].claimed_quote,
{
    let total = sum_locked(pages[k].investors);
    let fee_quote = spec_page_fee_quote(policy, pages, k);
    lemma_sum_locked_bounds(pages[k].investors);
    lemma_fee_quote_bounds(
        policy,
        pages[k].claimed_quote as int,
        spec_day_cumulative(policy, pages.take(k)),
        total,
    );
    if total == 0 {
        lemma_page_zero_locked(
            fee_quote,
            total,
            policy.min_payout_lamports as int,
            0u32,
            pages[k].investors,
        );
    } else {
        lemma_page_totals_le_quote(
            fee_quote,
            total,
            policy.min_payout_lamports as int,
            pages[k].investors,
        );
    }
}

/// Conservation over a whole day: for a day processed as pages `0` to
/// `n - 1` from a fresh open, whose final page closes it, the investor
/// payouts, the creator remainder and the carry-over left after the close
/// together account for exactly the quote amount claimed that day —
/// provided no payout was deferred and every page before the final one
/// paid out its full claim (as a page whose claim reports zero does).
///
/// Outside these conditions the identity fails: a non-final page that
/// keeps part of its claim leaves that part unswept, and a deferral is
/// both swept to the creator and retained as carry-over.
pub proof fn lemma_day_conservation_trace(policy: Policy, pages: Seq<DayPage>)
    requires
        policy.inv(),
        pages.len() > 0,
        forall|k: int|
            0 <= k < pages.len() ==> #[trigger] spec_page_deferred(policy, pages, k) == 0,
        forall|k: int|
            0 <= k < pages.len() - 1 ==> #[trigger] spec_page_paid(policy, pages, k)
                == pages[k].claimed_quote,
    ensures
        ({
            let n = pages.len() as int;
            let paid_sum = spec_day_cumulative(policy, pages);
            let carry_after = spec_day_carry(policy, pages);
            let remainder = pages[n - 1].claimed_quote as int - spec_page_paid(policy, pages, n - 1)
                + carry_after;
            &&& 0 <= remainder
            &&& paid_sum + remainder + carry_after == spec_day_claimed(pages)
        }),
{
    let n = pages.len() as int;
    let prefix = pages.drop_last();
    assert forall|k: int|
        0 <= k < prefix.len() implies #[trigger] spec_page_paid(policy, prefix, k)
        == prefix[k].claimed_quote by {
        lemma_page_of_prefix(policy, pages, k);
        assert(prefix[k] == pages[k]);
    }
    lemma_day_fully_paid(policy, prefix);
    lemma_day_carry_zero(policy, pages);
    lemma_day_unfold(policy, pages);
    lemma_page_paid_within_claim(policy, pages, n - 1);
    assert(pages.last() == pages[n - 1]);
}

} // verus!
