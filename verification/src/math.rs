//! Proportional payout arithmetic of one page: the locked-fraction share,
//! the daily-cap clamp, and the per-investor floor division, with the
//! accounting facts the engine's contracts rest on.

use vstd::prelude::*;
use vstd::arithmetic::div_mod::{
    lemma_div_is_ordered, lemma_div_multiples_vanish, lemma_div_pos_is_pos,
    lemma_fundamental_div_mod, lemma_mod_bound,
};
use vstd::arithmetic::mul::{
    lemma_mul_inequality, lemma_mul_is_distributive_add, lemma_mul_nonnegative,
    lemma_mul_upper_bound,
};
use crate::state::{InvestorAccount, BPS_DENOMINATOR};
use crate::events::InvestorPayout;

verus! {

/// The smaller of two integers.
pub open spec fn min_int(a: int, b: int) -> int {
    if a <= b {
        a
    } else {
        b
    }
}

/// Sum of the locked amounts of a page of investors.
pub open spec fn sum_locked(investors: Seq<InvestorAccount>) -> int
    decreases investors.len(),
{
    if investors.len() == 0 {
        0
    } else {
        sum_locked(investors.drop_last()) + investors.last().locked_amount
    }
}

/// The fraction of the baseline allocation still locked, in basis points.
/// Zero when no baseline was recorded.
pub open spec fn spec_f_locked_bps(total_locked: int, y0: int) -> int {
    if y0 <= 0 {
        0
    } else {
        (total_locked * (BPS_DENOMINATOR as int)) / y0
    }
}

/// The basis-point share of claimed fees that investors are eligible for:
/// the configured share, further limited by the locked fraction.
pub open spec fn spec_eligible_bps(share_bps: int, f_locked_bps: int) -> int {
    min_int(share_bps, f_locked_bps)
}

/// The investors' part of the claimed quote amount, before the daily cap.
pub open spec fn spec_investor_share(claimed_quote: int, eligible_bps: int) -> int {
    (claimed_quote * eligible_bps) / (BPS_DENOMINATOR as int)
}

/// What the daily cap still admits today; everything when no cap is set.
pub open spec fn spec_capped_quote(share: int, cap: Option<u64>, cumulative: int) -> int {
    match cap {
        Option::None => share,
        Option::Some(c) => min_int(
            share,
            if cumulative <= c as int {
                c as int - cumulative
            } else {
                0
            },
        ),
    }
}

/// One investor's proportional payout: multiply before dividing.
pub open spec fn spec_payout(fee_quote: int, locked: int, total_locked: int) -> int {
    (fee_quote * locked) / total_locked
}

/// Whether an investor is paid out rather than deferred: a nonzero payout
/// that reaches the configured minimum.
pub open spec fn spec_is_paid(
    fee_quote: int,
    total_locked: int,
    min_payout: int,
    investor: InvestorAccount,
) -> bool {
    &&& investor.locked_amount > 0
    &&& spec_payout(fee_quote, investor.locked_amount as int, total_locked) > 0
    &&& spec_payout(fee_quote, investor.locked_amount as int, total_locked) >= min_payout
}

/// Total actually paid to the investors of a page.
pub open spec fn spec_paid_total(
    fee_quote: int,
    total_locked: int,
    min_payout: int,
    investors: Seq<InvestorAccount>,
) -> int
    decreases investors.len(),
{
    if investors.len() == 0 {
        0
    } else {
        spec_paid_total(fee_quote, total_locked, min_payout, investors.drop_last()) + {
            let last = investors.last();
            if spec_is_paid(fee_quote, total_locked, min_payout, last) {
                spec_payout(fee_quote, last.locked_amount as int, total_locked)
            } else {
                0
            }
        }
    }
}

/// Total deferred to carry-over: computed payouts of locked investors that
/// stayed below the minimum (or rounded down to zero).
pub open spec fn spec_deferred_total(
    fee_quote: int,
    total_locked: int,
    min_payout: int,
    investors: Seq<InvestorAccount>,
) -> int
    decreases investors.len(),
{
    if investors.len() == 0 {
        0
    } else {
        spec_deferred_total(fee_quote, total_locked, min_payout, investors.drop_last()) + {
            let last = investors.last();
            if last.locked_amount > 0 && !spec_is_paid(fee_quote, total_locked, min_payout, last) {
                spec_payout(fee_quote, last.locked_amount as int, total_locked)
            } else {
                0
            }
        }
    }
}

/// The payout records of a page, in investor order, one per paid investor.
pub open spec fn spec_payout_events(
    fee_quote: int,
    total_locked: int,
    min_payout: int,
    page_index: u32,
    investors: Seq<InvestorAccount>,
) -> Seq<InvestorPayout>
    decreases investors.len(),
{
    if investors.len() == 0 {
        Seq::empty()
    } else {
        let rest = spec_payout_events(
            fee_quote,
            total_locked,
            min_payout,
            page_index,
            investors.drop_last(),
        );
        let last = investors.last();
        if spec_is_paid(fee_quote, total_locked, min_payout, last) {
            rest.push(
                InvestorPayout {
                    investor_quote_ata: last.investor_quote_ata,
                    amount: spec_payout(fee_quote, last.locked_amount as int, total_locked) as u64,
                    locked_amount: last.locked_amount,
                    page_index,
                },
            )
        } else {
            rest
        }
    }
}

/// A page's locked sum is nonnegative and at most one maximal amount per
/// investor.
pub proof fn lemma_sum_locked_bounds(investors: Seq<InvestorAccount>)
    ensures
        0 <= sum_locked(investors) <= investors.len() * (u64::MAX as int),
    decreases investors.len(),
{
    if investors.len() > 0 {
        lemma_sum_locked_bounds(investors.drop_last());
        assert((investors.len() - 1) * (u64::MAX as int) + (u64::MAX as int) == investors.len() * (
        u64::MAX as int)) by (nonlinear_arith);
    }
}

/// No single locked amount exceeds the page's locked sum.
pub proof fn lemma_element_le_sum(investors: Seq<InvestorAccount>, i: int)
    requires
        0 <= i < investors.len(),
    ensures
        investors[i].locked_amount <= sum_locked(investors),
    decreases investors.len(),
{
    lemma_sum_locked_bounds(investors.drop_last());
    if i < investors.len() - 1 {
        lemma_element_le_sum(investors.drop_last(), i);
    }
}

/// Taking one more element extends a prefix by that element.
pub proof fn lemma_take_one_more(investors: Seq<InvestorAccount>, i: int)
    requires
        0 <= i < investors.len(),
    ensures
        investors.take(i + 1).drop_last() == investors.take(i),
        investors.take(i + 1).last() == investors[i],
        sum_locked(investors.take(i + 1)) == sum_locked(investors.take(i))
            + investors[i].locked_amount,
{
    assert(investors.take(i + 1).drop_last() =~= investors.take(i));
}

/// A prefix's locked sum never exceeds the whole page's.
pub proof fn lemma_sum_prefix_le(investors: Seq<InvestorAccount>, i: int)
    requires
        0 <= i <= investors.len(),
    ensures
        sum_locked(investors.take(i)) <= sum_locked(investors),
    decreases investors.len() - i,
{
    if i == investors.len() {
        assert(investors.take(i) =~= investors);
    } else {
        lemma_take_one_more(investors, i);
        lemma_sum_prefix_le(investors, i + 1);
    }
}

/// Floor division distributes over addition with a loss, never a gain.
pub proof fn lemma_div_add_le(a: int, b: int, d: int)
    requires
        0 <= a,
        0 <= b,
        0 < d,
    ensures
        a / d + b / d <= (a + b) / d,
{
    lemma_fundamental_div_mod(a, d);
    lemma_fundamental_div_mod(b, d);
    lemma_mod_bound(a, d);
    lemma_mod_bound(b, d);
    let q = a / d + b / d;
    assert(d * q == d * (a / d) + d * (b / d)) by {
        lemma_mul_is_distributive_add(d, a / d, b / d);
    }
    assert(d * q <= a + b);
    lemma_div_is_ordered(d * q, a + b, d);
    lemma_div_multiples_vanish(q, d);
}

/// A proportional payout lies between zero and the distributable amount.
pub proof fn lemma_payout_in_range(fee_quote: int, locked: int, total_locked: int)
    requires
        0 <= fee_quote,
        0 <= locked <= total_locked,
        0 < total_locked,
    ensures
        0 <= spec_payout(fee_quote, locked, total_locked) <= fee_quote,
{
    lemma_mul_nonnegative(fee_quote, locked);
    lemma_div_pos_is_pos(fee_quote * locked, total_locked);
    lemma_mul_inequality(locked, total_locked, fee_quote);
    assert(fee_quote * locked == locked * fee_quote) by (nonlinear_arith);
    assert(fee_quote * total_locked == total_locked * fee_quote) by (nonlinear_arith);
    lemma_div_is_ordered(fee_quote * locked, fee_quote * total_locked, total_locked);
    lemma_div_multiples_vanish(fee_quote, total_locked);
}

/// Paid and deferred amounts of a prefix are nonnegative and together
/// bounded by the distributable amount scaled to the prefix's locked sum.
pub proof fn lemma_page_totals_partial(
    fee_quote: int,
    total_locked: int,
    min_payout: int,
    investors: Seq<InvestorAccount>,
)
    requires
        0 <= fee_quote,
        0 < total_locked,
        sum_locked(investors) <= total_locked,
    ensures
        0 <= spec_paid_total(fee_quote, total_locked, min_payout, investors),
        0 <= spec_deferred_total(fee_quote, total_locked, min_payout, investors),
        spec_paid_total(fee_quote, total_locked, min_payout, investors) + spec_deferred_total(
            fee_quote,
            total_locked,
            min_payout,
            investors,
        ) <= fee_quote * sum_locked(investors) / total_locked,
    decreases investors.len(),
{
    if investors.len() == 0 {
        assert(fee_quote * 0 == 0) by (nonlinear_arith);
        lemma_div_pos_is_pos(0, total_locked);
    } else {
        let prefix = investors.drop_last();
        let last = investors.last();
        let locked = last.locked_amount as int;
        lemma_sum_locked_bounds(prefix);
        lemma_page_totals_partial(fee_quote, total_locked, min_payout, prefix);
        lemma_element_le_sum(investors, investors.len() - 1);
        lemma_payout_in_range(fee_quote, locked, total_locked);
        lemma_mul_nonnegative(fee_quote, sum_locked(prefix));
        lemma_mul_nonnegative(fee_quote, locked);
        lemma_div_add_le(fee_quote * sum_locked(prefix), fee_quote * locked, total_locked);
        assert(fee_quote * sum_locked(prefix) + fee_quote * locked == fee_quote * (sum_locked(
            prefix,
        ) + locked)) by {
            lemma_mul_is_distributive_add(fee_quote, sum_locked(prefix), locked);
        }
        if locked > 0 {
            assert(spec_payout(fee_quote, locked, total_locked) <= fee_quote * locked
                / total_locked);
        }
    }
}

/// Paid and deferred amounts of any prefix of a page together never exceed
/// the distributable amount.
pub proof fn lemma_page_prefix_totals_le_quote(
    fee_quote: int,
    total_locked: int,
    min_payout: int,
    investors: Seq<InvestorAccount>,
    i: int,
)
    requires
        0 <= fee_quote,
        0 < total_locked,
        sum_locked(investors) <= total_locked,
        0 <= i <= investors.len(),
    ensures
        0 <= spec_paid_total(fee_quote, total_locked, min_payout, investors.take(i)),
        0 <= spec_deferred_total(fee_quote, total_locked, min_payout, investors.take(i)),
        spec_paid_total(fee_quote, total_locked, min_payout, investors.take(i))
            + spec_deferred_total(fee_quote, total_locked, min_payout, investors.take(i))
            <= fee_quote,
{
    lemma_sum_prefix_le(investors, i);
    lemma_page_totals_partial(fee_quote, total_locked, min_payout, investors.take(i));
    lemma_sum_locked_bounds(investors.take(i));
    lemma_mul_inequality(sum_locked(investors.take(i)), total_locked, fee_quote);
    assert(sum_locked(investors.take(i)) * fee_quote == fee_quote * sum_locked(investors.take(i)))
        by (nonlinear_arith);
    assert(total_locked * fee_quote == fee_quote * total_locked) by (nonlinear_arith);
    lemma_div_is_ordered(
        fee_quote * sum_locked(investors.take(i)),
        fee_quote * total_locked,
        total_locked,
    );
    lemma_div_multiples_vanish(fee_quote, total_locked);
}

/// A page whose investors have nothing locked pays and defers nothing.
pub proof fn lemma_page_zero_locked(
    fee_quote: int,
    total_locked: int,
    min_payout: int,
    page_index: u32,
    investors: Seq<InvestorAccount>,
)
    requires
        sum_locked(investors) == 0,
    ensures
        spec_paid_total(fee_quote, total_locked, min_payout, investors) == 0,
        spec_deferred_total(fee_quote, total_locked, min_payout, investors) == 0,
        spec_payout_events(fee_quote, total_locked, min_payout, page_index, investors)
            == Seq::<InvestorPayout>::empty(),
    decreases investors.len(),
{
    if investors.len() > 0 {
        lemma_element_le_sum(investors, investors.len() - 1);
        lemma_sum_locked_bounds(investors.drop_last());
        lemma_page_zero_locked(
            fee_quote,
            total_locked,
            min_payout,
            page_index,
            investors.drop_last(),
        );
    }
}

/// What a page pays out and what it defers together never exceed the
/// distributable amount.
pub proof fn lemma_page_totals_le_quote(
    fee_quote: int,
    total_locked: int,
    min_payout: int,
    investors: Seq<InvestorAccount>,
)
    requires
        0 <= fee_quote,
        0 < total_locked,
        sum_locked(investors) == total_locked,
    ensures
        0 <= spec_paid_total(fee_quote, total_locked, min_payout, investors),
        0 <= spec_deferred_total(fee_quote, total_locked, min_payout, investors),
        spec_paid_total(fee_quote, total_locked, min_payout, investors) + spec_deferred_total(
            fee_quote,
            total_locked,
            min_payout,
            investors,
        ) <= fee_quote,
{
    lemma_page_totals_partial(fee_quote, total_locked, min_payout, investors);
    assert(fee_quote * total_locked == total_locked * fee_quote) by (nonlinear_arith);
    lemma_div_multiples_vanish(fee_quote, total_locked);
}

} // verus!
