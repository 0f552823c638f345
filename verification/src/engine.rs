//! The distribution engine: the day-gate decision, creation of a vault's
//! records, and the processing of one page of a day's distribution.
//!
//! A call into the engine is atomic: it either succeeds and commits all of
//! its bookkeeping, or it fails and leaves the progress record exactly as
//! it was.  The engine never touches custody itself; the outcome of a
//! processed page lists the transfers the caller must perform.

use vstd::prelude::*;
use vstd::arithmetic::div_mod::{lemma_basic_div, lemma_div_is_ordered};
use vstd::arithmetic::mul::lemma_mul_upper_bound;
use crate::errors::DammError;
use crate::events::{
    CreatorPayoutDayClosed, HonoraryPositionInitialized, InvestorPayout, InvestorPayoutPage,
    QuoteFeesClaimed,
};
use crate::math::{
    lemma_element_le_sum, lemma_page_prefix_totals_le_quote, lemma_page_totals_le_quote,
    lemma_page_zero_locked, lemma_payout_in_range, lemma_sum_locked_bounds,
    lemma_take_one_more, spec_capped_quote, spec_deferred_total, spec_eligible_bps,
    spec_f_locked_bps, spec_investor_share, spec_paid_total, spec_payout_events,
    sum_locked,
};
use crate::state::{
    spec_day_of, HonoraryPositionAccount, InvestorAccount, Policy, Progress, BPS_DENOMINATOR,
    MAX_PAGES, SECONDS_PER_DAY,
};

verus! {

/// What the day gate decides about a call arriving at a given time.
#[derive(Clone, Copy, Debug, PartialEq, Eq, Structural)]
pub enum GateDecision {
    /// Reject the call: the day is closed, or 24 hours have not elapsed
    /// since the last distribution.
    NotOpen,
    /// Keep processing the currently open day.
    Continue,
    /// Open a new day before processing.
    Rollover,
}

/// How the day gate treats a call.  Within the recorded day: continue while it is open,
/// reject once it closed.  In a different day: roll over once a full day
/// has elapsed since the last distribution (or none ever occurred), and
/// reject before that.
pub open spec fn spec_gate_decision(progress: Progress, now_ts: i64) -> GateDecision {
    let day = spec_day_of(now_ts as int);
    if progress.day_id as int == day {
        if progress.is_closed {
            GateDecision::NotOpen
        } else {
            GateDecision::Continue
        }
    } else {
        if progress.last_distribution_ts != 0i64 && (now_ts as int)
            < progress.last_distribution_ts as int + SECONDS_PER_DAY as int {
            GateDecision::NotOpen
        } else {
            GateDecision::Rollover
        }
    }
}

/// The day that contains a timestamp.
pub fn day_of_timestamp(now_ts: i64) -> (day: u64)
    requires
        now_ts >= 0,
    ensures
        day as int == spec_day_of(now_ts as int),
{
    (now_ts as u64) / SECONDS_PER_DAY
}

/// Evaluate the day gate for a call arriving at `now_ts`, without touching
/// any state.  A caller that sees `NotOpen` or an already-processed page
/// need not claim fees at all.
pub fn check_day_gate(progress: &Progress, now_ts: i64) -> (decision: GateDecision)
    requires
        now_ts >= 0,
    ensures
        decision == spec_gate_decision(*progress, now_ts),
{
    let day = day_of_timestamp(now_ts);
    if day == progress.day_id {
        if progress.is_closed {
            GateDecision::NotOpen
        } else {
            GateDecision::Continue
        }
    } else {
        if progress.last_distribution_ts != 0 && (now_ts as i128) < progress.last_distribution_ts
            as i128 + SECONDS_PER_DAY as i128 {
            GateDecision::NotOpen
        } else {
            GateDecision::Rollover
        }
    }
}

/// Gate enforcement: once a day has closed at `last_distribution_ts`, every
/// crank within the following 86400 seconds is turned away, whatever page
/// it asks for.
pub proof fn lemma_gate_closed_within_window(progress: Progress, now_ts: i64)
    requires
        progress.inv(),
        progress.is_closed,
        0 <= now_ts,
        (now_ts as int) < progress.last_distribution_ts as int + SECONDS_PER_DAY as int,
    ensures
        spec_gate_decision(progress, now_ts) == GateDecision::NotOpen,
{
    let day = spec_day_of(now_ts as int);
    if progress.day_id as int != day {
        if progress.last_distribution_ts == 0i64 {
            lemma_basic_div(0, SECONDS_PER_DAY as int);
            lemma_basic_div(now_ts as int, SECONDS_PER_DAY as int);
            assert(false);
        }
    }
}

/// Validate that a position's tick range is well-formed for quote-only
/// accrual.
pub fn validate_quote_only_position(tick_lower: i32, tick_upper: i32) -> (r: Result<
    (),
    DammError,
>)
    ensures
        r == (if tick_lower < tick_upper {
            Ok::<(), DammError>(())
        } else {
            Err::<(), DammError>(DammError::InvalidTickRange)
        }),
{
    if tick_lower >= tick_upper {
        return Err(DammError::InvalidTickRange);
    }
    Ok(())
}

/// Everything created when a vault is initialized.
pub struct InitOutcome {
    /// The immutable distribution parameters.
    pub policy: Policy,
    /// The daily progress record, starting closed at day zero.
    pub progress: Progress,
    /// The read-only descriptor of the honorary position.
    pub honorary_position: HonoraryPositionAccount,
    /// The record to publish.
    pub event: HonoraryPositionInitialized,
}

/// Create the policy, progress and position descriptor of a vault.
///
/// Rejected, with nothing created, when the tick range is empty, the
/// supplied quote mint is not the pool's, the position is not configured
/// quote-only, or the investor share exceeds 10000 basis points.
pub fn initialize_honorary_position(
    pool: u64,
    pool_quote_mint: u64,
    position: u64,
    position_quote_only: bool,
    owner_pda: u64,
    quote_mint: u64,
    tick_lower: i32,
    tick_upper: i32,
    vault: u64,
    investor_fee_share_bps: u16,
    daily_cap_lamports: Option<u64>,
    min_payout_lamports: u64,
    y0: u64,
) -> (r: Result<InitOutcome, DammError>)
    ensures
        (r is Ok) <==> (tick_lower < tick_upper && pool_quote_mint == quote_mint
            && position_quote_only && investor_fee_share_bps <= BPS_DENOMINATOR),
        tick_lower >= tick_upper ==> r == Err::<InitOutcome, DammError>(DammError::InvalidTickRange),
        tick_lower < tick_upper && pool_quote_mint != quote_mint ==> r == Err::<
            InitOutcome,
            DammError,
        >(DammError::InvalidQuoteMint),
        tick_lower < tick_upper && pool_quote_mint == quote_mint && !position_quote_only ==> r
            == Err::<InitOutcome, DammError>(DammError::NotQuoteOnly),
        tick_lower < tick_upper && pool_quote_mint == quote_mint && position_quote_only
            && investor_fee_share_bps > BPS_DENOMINATOR ==> r == Err::<InitOutcome, DammError>(
            DammError::InvalidFeeShareBps,
        ),
        (r matches Ok(out) ==> {
            &&& out.policy == (Policy {
                vault,
                quote_mint,
                investor_fee_share_bps,
                daily_cap_lamports,
                min_payout_lamports,
                y0,
            })
            &&& out.policy.inv()
            &&& out.progress.inv()
            &&& out.progress.vault == vault
            &&& out.progress.day_id == 0u64
            &&& out.progress.last_distribution_ts == 0i64
            &&& out.progress.cumulative_distributed_today == 0u64
            &&& out.progress.carry_over_lamports == 0u64
            &&& out.progress.cursor_idx == 0u32
            &&& out.progress.is_closed
            &&& forall|i: int| 0 <= i < MAX_PAGES as int ==> !out.progress.spec_page_processed(i)
            &&& out.honorary_position == (HonoraryPositionAccount {
                pool,
                position,
                owner_pda,
                quote_mint,
                tick_lower,
                tick_upper,
            })
            &&& out.event == (HonoraryPositionInitialized {
                pool,
                position,
                quote_mint,
                tick_lower,
                tick_upper,
            })
        }),
{
    if tick_lower >= tick_upper {
        return Err(DammError::InvalidTickRange);
    }
    if pool_quote_mint != quote_mint {
        return Err(DammError::InvalidQuoteMint);
    }
    if !position_quote_only {
        return Err(DammError::NotQuoteOnly);
    }
    if investor_fee_share_bps > BPS_DENOMINATOR as u16 {
        return Err(DammError::InvalidFeeShareBps);
    }
    let policy = Policy {
        vault,
        quote_mint,
        investor_fee_share_bps,
        daily_cap_lamports,
        min_payout_lamports,
        y0,
    };
    let progress = Progress::initial(vault);
    let honorary_position = HonoraryPositionAccount {
        pool,
        position,
        owner_pda,
        quote_mint,
        tick_lower,
        tick_upper,
    };
    let event = HonoraryPositionInitialized { pool, position, quote_mint, tick_lower, tick_upper };
    Ok(InitOutcome { policy, progress, honorary_position, event })
}

/// Sum of the locked amounts of a page, in a wide accumulator.
fn total_locked_of_page(investors: &Vec<InvestorAccount>) -> (total: u128)
    ensures
        total as int == sum_locked(investors@),
{
    let mut total: u128 = 0;
    let mut i: usize = 0;
    proof {
        assert(investors@.take(0) =~= Seq::<InvestorAccount>::empty());
    }
    while i < investors.len()
        invariant
            i <= investors@.len(),
            total as int == sum_locked(investors@.take(i as int)),
        decreases investors@.len() - i,
    {
        proof {
            lemma_take_one_more(investors@, i as int);
            lemma_sum_locked_bounds(investors@.take(i as int + 1));
            lemma_mul_upper_bound(
                investors@.take(i as int + 1).len() as int,
                u64::MAX as int,
                u64::MAX as int,
                u64::MAX as int,
            );
        }
        total = total + investors[i].locked_amount as u128;
        i = i + 1;
    }
    proof {
        assert(investors@.take(investors@.len() as int) =~= investors@);
    }
    total
}

/// The distributable quote amount of a page as the engine computes it:
/// the locked-fraction share of the claimed amount, clamped to what the
/// daily cap still admits.
pub open spec fn spec_fee_quote_of(
    policy: Policy,
    claimed_quote: int,
    cumulative: int,
    total_locked: int,
) -> int {
    spec_capped_quote(
        spec_investor_share(
            claimed_quote,
            spec_eligible_bps(
                policy.investor_fee_share_bps as int,
                spec_f_locked_bps(total_locked, policy.y0 as int),
            ),
        ),
        policy.daily_cap_lamports,
        cumulative,
    )
}

/// Steps 1 to 5 of the payout calculation: from the claimed quote amount
/// and the page's locked total to the amount distributable to investors.
pub fn compute_investor_fee_quote(
    policy: &Policy,
    claimed_quote: u64,
    total_locked: u128,
    cumulative_distributed_today: u64,
) -> (r: Result<u64, DammError>)
    requires
        policy.inv(),
    ensures
        (r is Err) <==> (policy.y0 > 0 && total_locked as int * (BPS_DENOMINATOR as int)
            > u128::MAX as int),
        (r is Err) ==> r == Err::<u64, DammError>(DammError::ArithmeticOverflow),
        (r matches Ok(fee_quote) ==> {
            &&& fee_quote as int == spec_fee_quote_of(
                *policy,
                claimed_quote as int,
                cumulative_distributed_today as int,
                total_locked as int,
            )
            &&& fee_quote <= claimed_quote
        }),
{
    let f_locked_bps: u128 = if policy.y0 == 0 {
        0
    } else {
        if total_locked > u128::MAX / (BPS_DENOMINATOR as u128) {
            proof {
                let b = BPS_DENOMINATOR as int;
                let limit = u128::MAX as int / b;
                vstd::arithmetic::div_mod::lemma_fundamental_div_mod(u128::MAX as int, b);
                vstd::arithmetic::div_mod::lemma_mod_bound(u128::MAX as int, b);
                vstd::arithmetic::mul::lemma_mul_inequality(
                    limit + 1,
                    total_locked as int,
                    b,
                );
                assert((limit + 1) * b == limit * b + b) by (nonlinear_arith);
                assert(b * limit == limit * b) by (nonlinear_arith);
            }
            return Err(DammError::ArithmeticOverflow);
        }
        proof {
            let b = BPS_DENOMINATOR as int;
            let limit = u128::MAX as int / b;
            vstd::arithmetic::div_mod::lemma_fundamental_div_mod(u128::MAX as int, b);
            vstd::arithmetic::div_mod::lemma_mod_bound(u128::MAX as int, b);
            vstd::arithmetic::mul::lemma_mul_inequality(total_locked as int, limit, b);
            assert(b * limit == limit * b) by (nonlinear_arith);
        }
        (total_locked * (BPS_DENOMINATOR as u128)) / (policy.y0 as u128)
    };
    let share_bps: u128 = policy.investor_fee_share_bps as u128;
    let eligible_bps: u128 = if share_bps <= f_locked_bps {
        share_bps
    } else {
        f_locked_bps
    };
    proof {
        lemma_mul_upper_bound(
            claimed_quote as int,
            u64::MAX as int,
            eligible_bps as int,
            BPS_DENOMINATOR as int,
        );
    }
    let shared: u128 = (claimed_quote as u128 * eligible_bps) / (BPS_DENOMINATOR as u128);
    proof {
        vstd::arithmetic::mul::lemma_mul_inequality(
            eligible_bps as int,
            BPS_DENOMINATOR as int,
            claimed_quote as int,
        );
        assert(eligible_bps as int * claimed_quote as int == claimed_quote as int
            * eligible_bps as int) by (nonlinear_arith);
        assert(BPS_DENOMINATOR as int * claimed_quote as int == claimed_quote as int
            * BPS_DENOMINATOR as int) by (nonlinear_arith);
        lemma_div_is_ordered(
            claimed_quote as int * eligible_bps as int,
            claimed_quote as int * BPS_DENOMINATOR as int,
            BPS_DENOMINATOR as int,
        );
        vstd::arithmetic::div_mod::lemma_div_by_multiple(
            claimed_quote as int,
            BPS_DENOMINATOR as int,
        );
    }
    let fee_quote: u128 = match policy.daily_cap_lamports {
        Option::Some(cap) => {
            let remaining: u64 = if cumulative_distributed_today <= cap {
                cap - cumulative_distributed_today
            } else {
                0
            };
            if shared > remaining as u128 {
                remaining as u128
            } else {
                shared
            }
        },
        Option::None => shared,
    };
    Ok(fee_quote as u64)
}

/// Steps 6 to 8 of the payout calculation: the proportional payout of each
/// investor of the page, split into paid amounts (with their transfer
/// records) and amounts deferred to carry-over.
pub fn compute_page_payouts(
    fee_quote: u64,
    total_locked: u128,
    min_payout: u64,
    page_index: u32,
    investors: &Vec<InvestorAccount>,
) -> (r: (Vec<InvestorPayout>, u64, u64))
    requires
        total_locked > 0,
        total_locked as int == sum_locked(investors@),
    ensures
        r.1 as int == spec_paid_total(
            fee_quote as int,
            total_locked as int,
            min_payout as int,
            investors@,
        ),
        r.2 as int == spec_deferred_total(
            fee_quote as int,
            total_locked as int,
            min_payout as int,
            investors@,
        ),
        r.0@ == spec_payout_events(
            fee_quote as int,
            total_locked as int,
            min_payout as int,
            page_index,
            investors@,
        ),
        r.1 as int + r.2 as int <= fee_quote as int,
{
    let ghost fq = fee_quote as int;
    let ghost t = total_locked as int;
    let ghost m = min_payout as int;
    let mut payouts: Vec<InvestorPayout> = Vec::new();
    let mut paid_total: u64 = 0;
    let mut deferred_total: u64 = 0;
    let mut i: usize = 0;
    proof {
        assert(investors@.take(0) =~= Seq::<InvestorAccount>::empty());
        assert(payouts@ =~= spec_payout_events(fq, t, m, page_index, investors@.take(0)));
    }
    while i < investors.len()
        invariant
            i <= investors@.len(),
            total_locked > 0,
            total_locked as int == sum_locked(investors@),
            fq == fee_quote as int,
            t == total_locked as int,
            m == min_payout as int,
            paid_total as int == spec_paid_total(fq, t, m, investors@.take(i as int)),
            deferred_total as int == spec_deferred_total(fq, t, m, investors@.take(i as int)),
            payouts@ == spec_payout_events(fq, t, m, page_index, investors@.take(i as int)),
            paid_total as int + deferred_total as int <= fq,
        decreases investors@.len() - i,
    {
        let investor = investors[i];
        proof {
            lemma_take_one_more(investors@, i as int);
            lemma_page_prefix_totals_le_quote(fq, t, m, investors@, i as int + 1);
        }
        if investor.locked_amount > 0 {
            proof {
                lemma_mul_upper_bound(
                    fee_quote as int,
                    u64::MAX as int,
                    investor.locked_amount as int,
                    u64::MAX as int,
                );
                lemma_element_le_sum(investors@, i as int);
                lemma_payout_in_range(fq, investor.locked_amount as int, t);
            }
            let payout_wide: u128 = (fee_quote as u128 * investor.locked_amount as u128)
                / total_locked;
            let payout: u64 = payout_wide as u64;
            if payout > 0 && payout >= min_payout {
                payouts.push(
                    InvestorPayout {
                        investor_quote_ata: investor.investor_quote_ata,
                        amount: payout,
                        locked_amount: investor.locked_amount,
                        page_index,
                    },
                );
                paid_total = paid_total + payout;
            } else {
                deferred_total = deferred_total + payout;
            }
        }
        i = i + 1;
    }
    proof {
        assert(investors@.take(investors@.len() as int) =~= investors@);
    }
    (payouts, paid_total, deferred_total)
}

/// The accumulators a page computation starts from once the day-gate choice
/// is applied: those of the open day, or fresh ones after a rollover.
pub ghost struct EffectiveDay {
    /// The day being processed.
    pub day_id: int,
    /// The next expected page index.
    pub cursor: int,
    /// Investor payouts accumulated today.
    pub cumulative: int,
    /// Carry-over entering the call.
    pub carry_over: int,
}

/// The accumulators after the day-gate choice is applied.
pub open spec fn spec_effective_day(progress: Progress, now_ts: i64) -> EffectiveDay {
    if spec_gate_decision(progress, now_ts) == GateDecision::Rollover {
        EffectiveDay {
            day_id: spec_day_of(now_ts as int),
            cursor: 0,
            cumulative: 0,
            carry_over: 0,
        }
    } else {
        EffectiveDay {
            day_id: progress.day_id as int,
            cursor: progress.cursor_idx as int,
            cumulative: progress.cumulative_distributed_today as int,
            carry_over: progress.carry_over_lamports as int,
        }
    }
}

/// Exactly why a crank is rejected, or `None` when it succeeds (processing
/// the page, or skipping an already-processed one).
pub open spec fn spec_crank_error(
    policy: Policy,
    progress: Progress,
    now_ts: i64,
    page_index: u32,
    is_final_page_in_day: bool,
    claimed_base: u64,
    claimed_quote: u64,
    investors: Seq<InvestorAccount>,
) -> Option<DammError> {
    let eff = spec_effective_day(progress, now_ts);
    if spec_gate_decision(progress, now_ts) == GateDecision::NotOpen {
        Some(DammError::DayGateNotOpen)
    } else if page_index < eff.cursor {
        None
    } else if page_index != eff.cursor || page_index >= MAX_PAGES {
        Some(DammError::InvalidPaginationCursor)
    } else if claimed_base > 0 {
        Some(DammError::BaseFeesObserved)
    } else {
        let total = sum_locked(investors);
        if policy.y0 > 0 && total * (BPS_DENOMINATOR as int) > u128::MAX as int {
            Some(DammError::ArithmeticOverflow)
        } else {
            let fee_quote = spec_fee_quote_of(policy, claimed_quote as int, eff.cumulative, total);
            let paid = spec_paid_total(fee_quote, total, policy.min_payout_lamports as int, investors);
            let deferred = spec_deferred_total(
                fee_quote,
                total,
                policy.min_payout_lamports as int,
                investors,
            );
            if eff.carry_over + deferred > u64::MAX as int {
                Some(DammError::ArithmeticOverflow)
            } else if eff.cumulative + paid > u64::MAX as int {
                Some(DammError::ArithmeticOverflow)
            } else if is_final_page_in_day && claimed_quote as int - paid + (eff.carry_over
                + deferred) > u64::MAX as int {
                Some(DammError::ArithmeticOverflow)
            } else {
                None
            }
        }
    }
}

/// The distributable amount of a page is never negative and never exceeds
/// the claimed quote amount.
pub proof fn lemma_fee_quote_bounds(
    policy: Policy,
    claimed_quote: int,
    cumulative: int,
    total_locked: int,
)
    requires
        policy.inv(),
        0 <= claimed_quote,
        0 <= total_locked,
    ensures
        0 <= spec_fee_quote_of(policy, claimed_quote, cumulative, total_locked) <= claimed_quote,
{
    let b = BPS_DENOMINATOR as int;
    let f = spec_f_locked_bps(total_locked, policy.y0 as int);
    if policy.y0 > 0 {
        vstd::arithmetic::mul::lemma_mul_nonnegative(total_locked, b);
        vstd::arithmetic::div_mod::lemma_div_pos_is_pos(total_locked * b, policy.y0 as int);
    }
    let e = spec_eligible_bps(policy.investor_fee_share_bps as int, f);
    vstd::arithmetic::mul::lemma_mul_nonnegative(claimed_quote, e);
    vstd::arithmetic::div_mod::lemma_div_pos_is_pos(claimed_quote * e, b);
    vstd::arithmetic::mul::lemma_mul_inequality(e, b, claimed_quote);
    assert(e * claimed_quote == claimed_quote * e) by (nonlinear_arith);
    assert(b * claimed_quote == claimed_quote * b) by (nonlinear_arith);
    lemma_div_is_ordered(claimed_quote * e, claimed_quote * b, b);
    vstd::arithmetic::div_mod::lemma_div_by_multiple(claimed_quote, b);
}

/// Conservation: when a day is settled in its single, final page — the day
/// opens fresh, so no carry-over enters it — and no payout of that page is
/// deferred, the investor payouts and the creator remainder together
/// account for exactly the quote amount claimed that day.
///
/// With a deferral the identity shifts: the deferred dust is swept into
/// the creator remainder and also retained as carry-over, so the sum
/// exceeds the claimed amount by twice the deferred total.
pub proof fn lemma_day_conservation(
    policy: Policy,
    claimed_quote: u64,
    investors: Seq<InvestorAccount>,
)
    requires
        policy.inv(),
        spec_deferred_total(
            spec_fee_quote_of(policy, claimed_quote as int, 0, sum_locked(investors)),
            sum_locked(investors),
            policy.min_payout_lamports as int,
            investors,
        ) == 0,
    ensures
        ({
            let total = sum_locked(investors);
            let fee_quote = spec_fee_quote_of(policy, claimed_quote as int, 0, total);
            let paid = spec_paid_total(
                fee_quote,
                total,
                policy.min_payout_lamports as int,
                investors,
            );
            let carry_after = 0 + spec_deferred_total(
                fee_quote,
                total,
                policy.min_payout_lamports as int,
                investors,
            );
            let remainder = claimed_quote as int - paid + carry_after;
            &&& 0 <= paid <= claimed_quote as int
            &&& 0 <= remainder
            &&& paid + remainder + carry_after == claimed_quote as int
        }),
{
    let total = sum_locked(investors);
    let fee_quote = spec_fee_quote_of(policy, claimed_quote as int, 0, total);
    lemma_sum_locked_bounds(investors);
    lemma_fee_quote_bounds(policy, claimed_quote as int, 0, total);
    if total == 0 {
        lemma_page_zero_locked(
            fee_quote,
            total,
            policy.min_payout_lamports as int,
            0u32,
            investors,
        );
    } else {
        lemma_page_totals_le_quote(fee_quote, total, policy.min_payout_lamports as int, investors);
    }
}

/// What one engine call produced: the claim acknowledgement, the investor
/// transfers, the page summary, and, on a final page, the day-close record
/// whose remainder goes to the creator.
pub struct PageOutcome {
    /// The claim event, absent when the page was an idempotent no-op.
    pub fees_claimed: Option<QuoteFeesClaimed>,
    /// One record per paid investor; also the transfer orders.
    pub payouts: Vec<InvestorPayout>,
    /// Summary of the page.
    pub page_summary: InvestorPayoutPage,
    /// The day-close record, present on a final page only.
    pub day_closed: Option<CreatorPayoutDayClosed>,
}

/// Process one page of a day's distribution.
///
/// The caller supplies the wall-clock time, the amounts the fee claim
/// reported (base must be zero), and the page's investor records.  On
/// success the progress record is advanced and the outcome lists what to
/// transfer; on any error the progress record is untouched.
pub fn distribute_page(
    policy: &Policy,
    progress: &mut Progress,
    now_ts: i64,
    page_index: u32,
    is_final_page_in_day: bool,
    claimed_base: u64,
    claimed_quote: u64,
    investors: &Vec<InvestorAccount>,
) -> (r: Result<PageOutcome, DammError>)
    requires
        policy.inv(),
        old(progress).inv(),
        now_ts >= 0,
    ensures
        final(progress).inv(),
        final(progress).vault == old(progress).vault,
        ({
            let eff = spec_effective_day(*old(progress), now_ts);
            let total = sum_locked(investors@);
            let fee_quote = spec_fee_quote_of(
                *policy,
                claimed_quote as int,
                eff.cumulative,
                total,
            );
            let paid = spec_paid_total(
                fee_quote,
                total,
                policy.min_payout_lamports as int,
                investors@,
            );
            let deferred = spec_deferred_total(
                fee_quote,
                total,
                policy.min_payout_lamports as int,
                investors@,
            );
            let err = spec_crank_error(
                *policy,
                *old(progress),
                now_ts,
                page_index,
                is_final_page_in_day,
                claimed_base,
                claimed_quote,
                investors@,
            );
            &&& ((r is Err) <==> (err is Some))
            &&& (err matches Some(e) ==> r == Err::<PageOutcome, DammError>(e))
            &&& ((r is Err) ==> *final(progress) == *old(progress))
            &&& (err is None && page_index < eff.cursor ==> {
                &&& *final(progress) == *old(progress)
                &&& (r matches Ok(out) ==> {
                    &&& out.fees_claimed is None
                    &&& out.payouts@ == Seq::<InvestorPayout>::empty()
                    &&& out.page_summary == (InvestorPayoutPage { page_index, paid_total: 0u64 })
                    &&& out.day_closed is None
                })
            })
            &&& (err is None && page_index == eff.cursor ==> {
                &&& final(progress).day_id as int == eff.day_id
                &&& final(progress).last_distribution_ts == now_ts
                &&& final(progress).cumulative_distributed_today as int == eff.cumulative + paid
                &&& final(progress).carry_over_lamports as int == eff.carry_over + deferred
                &&& final(progress).cursor_idx as int == page_index as int + 1
                &&& final(progress).is_closed == is_final_page_in_day
                &&& (r matches Ok(out) ==> {
                    &&& out.fees_claimed == Some(QuoteFeesClaimed { amount: claimed_quote })
                    &&& out.payouts@ == spec_payout_events(
                        fee_quote,
                        total,
                        policy.min_payout_lamports as int,
                        page_index,
                        investors@,
                    )
                    &&& out.page_summary == (InvestorPayoutPage {
                        page_index,
                        paid_total: paid as u64,
                    })
                    &&& out.day_closed == (if is_final_page_in_day {
                        Some(
                            CreatorPayoutDayClosed {
                                day_id: eff.day_id as u64,
                                remainder: (claimed_quote as int - paid + (eff.carry_over
                                    + deferred)) as u64,
                                total_investor_payout: (eff.cumulative + paid) as u64,
                            },
                        )
                    } else {
                        None::<CreatorPayoutDayClosed>
                    })
                })
            })
        }),
        // The cursor never moves backwards within a day.
        ({
            let p0 = *old(progress);
            let p1 = *final(progress);
            p1.day_id == p0.day_id ==> p1.cursor_idx >= p0.cursor_idx
        }),
        // The daily cap is never exceeded.
        ({
            let p0 = *old(progress);
            let p1 = *final(progress);
            match policy.daily_cap_lamports {
                Some(cap) => p0.cumulative_distributed_today <= cap
                    ==> p1.cumulative_distributed_today <= cap,
                None => true,
            }
        }),
{
    let ghost eff = spec_effective_day(*old(progress), now_ts);
    let gate = check_day_gate(progress, now_ts);
    let rolled: bool = match gate {
        GateDecision::NotOpen => {
            return Err(DammError::DayGateNotOpen);
        },
        GateDecision::Continue => false,
        GateDecision::Rollover => true,
    };
    let eff_cursor: u32 = if rolled {
        0
    } else {
        progress.cursor_idx
    };
    let eff_cum: u64 = if rolled {
        0
    } else {
        progress.cumulative_distributed_today
    };
    let eff_carry: u64 = if rolled {
        0
    } else {
        progress.carry_over_lamports
    };
    let eff_day: u64 = if rolled {
        day_of_timestamp(now_ts)
    } else {
        progress.day_id
    };
    proof {
        assert(eff_cursor as int == eff.cursor);
        assert(eff_cum as int == eff.cumulative);
        assert(eff_carry as int == eff.carry_over);
        assert(eff_day as int == eff.day_id);
    }
    let duplicate: bool = if rolled {
        false
    } else {
        progress.is_page_processed(page_index)
    };
    proof {
        assert(duplicate == (page_index < eff_cursor));
    }
    if duplicate {
        let no_payouts: Vec<InvestorPayout> = Vec::new();
        proof {
            assert(no_payouts@ =~= Seq::<InvestorPayout>::empty());
        }
        return Ok(
            PageOutcome {
                fees_claimed: None,
                payouts: no_payouts,
                page_summary: InvestorPayoutPage { page_index, paid_total: 0 },
                day_closed: None,
            },
        );
    }
    if page_index != eff_cursor || page_index >= MAX_PAGES {
        return Err(DammError::InvalidPaginationCursor);
    }
    if claimed_base > 0 {
        return Err(DammError::BaseFeesObserved);
    }
    let total_locked: u128 = total_locked_of_page(investors);
    let fee_quote: u64 = match compute_investor_fee_quote(policy, claimed_quote, total_locked,
        eff_cum) {
        Ok(fee_quote) => fee_quote,
        Err(e) => {
            return Err(e);
        },
    };
    let ghost fq = fee_quote as int;
    let ghost t = total_locked as int;
    let ghost m = policy.min_payout_lamports as int;
    let (payouts, paid_total, deferred_total): (Vec<InvestorPayout>, u64, u64) = if total_locked
        > 0 {
        compute_page_payouts(fee_quote, total_locked, policy.min_payout_lamports, page_index,
            investors)
    } else {
        proof {
            lemma_page_zero_locked(fq, t, m, page_index, investors@);
        }
        let empty_payouts: Vec<InvestorPayout> = Vec::new();
        proof {
            assert(empty_payouts@ =~= spec_payout_events(fq, t, m, page_index, investors@));
        }
        (empty_payouts, 0, 0)
    };
    let carry_wide: u128 = eff_carry as u128 + deferred_total as u128;
    if carry_wide > u64::MAX as u128 {
        return Err(DammError::ArithmeticOverflow);
    }
    let cum_wide: u128 = eff_cum as u128 + paid_total as u128;
    if cum_wide > u64::MAX as u128 {
        return Err(DammError::ArithmeticOverflow);
    }
    let new_carry: u64 = carry_wide as u64;
    let new_cum: u64 = cum_wide as u64;
    let day_closed: Option<CreatorPayoutDayClosed> = if is_final_page_in_day {
        let remainder_wide: u128 = claimed_quote as u128 - paid_total as u128 + new_carry as u128;
        if remainder_wide > u64::MAX as u128 {
            return Err(DammError::ArithmeticOverflow);
        }
        Some(
            CreatorPayoutDayClosed {
                day_id: eff_day,
                remainder: remainder_wide as u64,
                total_investor_payout: new_cum,
            },
        )
    } else {
        None
    };
    if rolled {
        progress.reset_for_new_day(eff_day, now_ts);
    }
    let ghost day_start = *progress;
    progress.carry_over_lamports = new_carry;
    progress.cumulative_distributed_today = new_cum;
    let ghost pre_mark = *progress;
    progress.mark_page_processed(page_index);
    let ghost post_mark = *progress;
    progress.cursor_idx = page_index + 1;
    progress.last_distribution_ts = now_ts;
    progress.is_closed = is_final_page_in_day;
    proof {
        assert forall|i: int|
            0 <= i < MAX_PAGES as int implies (progress.spec_page_processed(i) <==> i
            < progress.cursor_idx as int) by {
            assert(progress.processed_pages_bitmap == post_mark.processed_pages_bitmap);
            assert(pre_mark.processed_pages_bitmap == day_start.processed_pages_bitmap);
            if rolled {
                assert(!day_start.spec_page_processed(i));
            } else {
                assert(day_start.spec_page_processed(i) <==> i < day_start.cursor_idx as int);
            }
            assert(pre_mark.spec_page_processed(i) <==> day_start.spec_page_processed(i));
            assert(post_mark.spec_page_processed(i) <==> (i == page_index as int
                || pre_mark.spec_page_processed(i)));
            assert(progress.spec_page_processed(i) <==> post_mark.spec_page_processed(i));
        }
        assert(progress.inv());
    }
    Ok(
        PageOutcome {
            fees_claimed: Some(QuoteFeesClaimed { amount: claimed_quote }),
            payouts,
            page_summary: InvestorPayoutPage { page_index, paid_total },
            day_closed,
        },
    )
}

} // verus!
