use damm_honorary_fee::engine::check_day_gate;
use damm_honorary_fee::engine::compute_investor_fee_quote;
use damm_honorary_fee::engine::compute_page_payouts;
use damm_honorary_fee::engine::distribute_page;
use damm_honorary_fee::engine::GateDecision;
use damm_honorary_fee::errors::DammError;
use damm_honorary_fee::events::QuoteFeesClaimed;
use damm_honorary_fee::state::InvestorAccount;
use damm_honorary_fee::state::Policy;
use damm_honorary_fee::state::Progress;

const DAY: i64 = 86_400;

fn policy(bps: u16, cap: Option<u64>, min_payout: u64, y0: u64) -> Policy {
    Policy {
        vault: 1,
        quote_mint: 2,
        investor_fee_share_bps: bps,
        daily_cap_lamports: cap,
        min_payout_lamports: min_payout,
        y0,
    }
}

fn investor(ata: u64, locked: u64) -> InvestorAccount {
    InvestorAccount {
        investor_quote_ata: ata,
        stream_pubkey: 100 + ata,
        locked_amount: locked,
    }
}

#[test]
fn test_crank_distribute_page() {
    // Example: y0 = 1,000,000 and total locked 400,000 give f_locked of
    // 4000 bps; a 5000 bps policy is limited to 4000; of 1000 claimed,
    // 400 go to investors, split 300/100 by locked amounts.
    let policy = policy(5000, None, 0, 1_000_000);
    let mut progress = Progress::initial(1);
    let investors = vec![investor(11, 300_000), investor(12, 100_000)];

    let out = distribute_page(&policy, &mut progress, DAY, 0, false, 0, 1000, &investors)
        .expect("crank should succeed");

    assert_eq!(out.fees_claimed, Some(QuoteFeesClaimed { amount: 1000 }));
    assert_eq!(out.payouts.len(), 2);
    assert_eq!(out.payouts[0].investor_quote_ata, 11);
    assert_eq!(out.payouts[0].amount, 300);
    assert_eq!(out.payouts[0].locked_amount, 300_000);
    assert_eq!(out.payouts[0].page_index, 0);
    assert_eq!(out.payouts[1].investor_quote_ata, 12);
    assert_eq!(out.payouts[1].amount, 100);
    assert_eq!(out.page_summary.page_index, 0);
    assert_eq!(out.page_summary.paid_total, 400);
    assert_eq!(out.day_closed, None);

    assert_eq!(progress.day_id, 1);
    assert_eq!(progress.last_distribution_ts, DAY);
    assert_eq!(progress.cumulative_distributed_today, 400);
    assert_eq!(progress.carry_over_lamports, 0);
    assert_eq!(progress.cursor_idx, 1);
    assert!(!progress.is_closed);
    assert!(progress.is_page_processed(0));
    assert!(!progress.is_page_processed(1));
}

#[test]
fn test_pagination_idempotency() {
    let policy = policy(10_000, None, 0, 1000);
    let mut progress = Progress::initial(1);
    let investors = vec![investor(11, 1000)];

    let first = distribute_page(&policy, &mut progress, DAY, 0, false, 0, 500, &investors)
        .expect("first crank should succeed");
    assert_eq!(first.page_summary.paid_total, 500);
    let snapshot = progress.clone();

    // Retrying the completed page succeeds as a no-op: no claim, no
    // payouts, no state change.
    let retry = distribute_page(&policy, &mut progress, DAY + 10, 0, true, 1, 999, &investors)
        .expect("retry of a processed page should succeed");
    assert_eq!(retry.fees_claimed, None);
    assert_eq!(retry.payouts.len(), 0);
    assert_eq!(retry.page_summary.paid_total, 0);
    assert_eq!(retry.day_closed, None);
    assert_eq!(progress, snapshot);

    // A page beyond the cursor is a gap and is rejected unchanged.
    let gap = distribute_page(&policy, &mut progress, DAY + 20, 2, false, 0, 500, &investors);
    assert_eq!(gap.err(), Some(DammError::InvalidPaginationCursor));
    assert_eq!(progress, snapshot);
}

#[test]
fn test_cursor_advances_one_page_at_a_time() {
    let policy = policy(10_000, None, 0, 1000);
    let mut progress = Progress::initial(1);
    let investors = vec![investor(11, 1000)];

    assert_eq!(progress.cursor_idx, 0);
    for page in 0..3u32 {
        distribute_page(&policy, &mut progress, DAY + page as i64, page, false, 0, 10, &investors)
            .expect("crank should succeed");
        assert_eq!(progress.cursor_idx, page + 1);
        assert_eq!(progress.day_id, 1);
    }
}

#[test]
fn test_min_payout_deferred_to_carry_over() {
    // Example: a computed payout of 50 under a minimum of 100 is deferred
    // to carry-over and excluded from the paid total.
    let policy = policy(10_000, None, 100, 1000);
    let mut progress = Progress::initial(1);
    let investors = vec![investor(11, 500), investor(12, 500)];

    let out = distribute_page(&policy, &mut progress, DAY, 0, false, 0, 100, &investors)
        .expect("crank should succeed");

    assert_eq!(out.payouts.len(), 0);
    assert_eq!(out.page_summary.paid_total, 0);
    assert_eq!(progress.cumulative_distributed_today, 0);
    assert_eq!(progress.carry_over_lamports, 100);
}

#[test]
fn test_base_fees_observed_aborts_page() {
    // Example: a claim reporting one base lamport fails the call; the
    // progress record is byte-for-byte unchanged and nothing is paid.
    let policy = policy(5000, None, 0, 1_000_000);
    let mut progress = Progress::initial(1);
    let snapshot = progress.clone();
    let investors = vec![investor(11, 300_000)];

    let r = distribute_page(&policy, &mut progress, DAY, 0, false, 1, 1000, &investors);
    assert_eq!(r.err(), Some(DammError::BaseFeesObserved));
    assert_eq!(progress, snapshot);
}

#[test]
fn test_final_page_sends_remainder_and_closes_day() {
    // Example: a final page with 1000 claimed, 400 paid and 50 carried
    // over sends a remainder of 650 to the creator and closes the day.
    let policy = policy(5000, None, 100, 1_000_000);
    let mut progress = Progress::initial(1);
    let investors = vec![investor(11, 400_000), investor(12, 50_000)];

    let out = distribute_page(&policy, &mut progress, DAY, 0, true, 0, 1000, &investors)
        .expect("crank should succeed");

    // 450,000 of 1,000,000 locked: 4500 bps, under the 5000 bps policy;
    // 1000 claimed make 450 distributable: 400 paid, 50 deferred.
    assert_eq!(out.payouts.len(), 1);
    assert_eq!(out.payouts[0].amount, 400);
    assert_eq!(out.page_summary.paid_total, 400);
    assert_eq!(progress.carry_over_lamports, 50);

    let closed = out.day_closed.expect("final page should close the day");
    assert_eq!(closed.day_id, 1);
    assert_eq!(closed.remainder, 650);
    assert_eq!(closed.total_investor_payout, 400);
    assert!(progress.is_closed);
}

#[test]
fn test_day_gate_blocks_within_window_after_close() {
    // Two cranks within the same 86400-second window after a day closes:
    // the second fails as not open, whatever day it falls in.
    let policy = policy(10_000, None, 0, 1000);
    let mut progress = Progress::initial(1);
    let investors = vec![investor(11, 1000)];

    let close_ts = 2 * DAY - 100;
    distribute_page(&policy, &mut progress, close_ts, 0, true, 0, 500, &investors)
        .expect("closing crank should succeed");
    assert!(progress.is_closed);
    let snapshot = progress.clone();

    // Same day, shortly after the close.
    let r = distribute_page(&policy, &mut progress, close_ts + 10, 1, false, 0, 500, &investors);
    assert_eq!(r.err(), Some(DammError::DayGateNotOpen));
    assert_eq!(progress, snapshot);

    // The next calendar day, but still within 86400 seconds of the close.
    let r = distribute_page(&policy, &mut progress, close_ts + 200, 0, false, 0, 500, &investors);
    assert_eq!(r.err(), Some(DammError::DayGateNotOpen));
    assert_eq!(progress, snapshot);

    // Once the full window has elapsed, a new day opens at page zero.
    let reopened = distribute_page(
        &policy,
        &mut progress,
        close_ts + DAY,
        0,
        false,
        0,
        500,
        &investors,
    )
    .expect("crank after the window should succeed");
    assert_eq!(reopened.page_summary.paid_total, 500);
    assert!(!progress.is_closed);
    assert_eq!(progress.cursor_idx, 1);
}

#[test]
fn test_daily_cap_limits_distribution() {
    // With a cap of 100, the first page distributes at most 100 and the
    // cumulative total never exceeds the cap afterwards.
    let policy = policy(10_000, Some(100), 0, 1000);
    let mut progress = Progress::initial(1);
    let investors = vec![investor(11, 1000)];

    let first = distribute_page(&policy, &mut progress, DAY, 0, false, 0, 1000, &investors)
        .expect("first crank should succeed");
    assert_eq!(first.page_summary.paid_total, 100);
    assert_eq!(progress.cumulative_distributed_today, 100);

    let second = distribute_page(&policy, &mut progress, DAY + 5, 1, false, 0, 1000, &investors)
        .expect("second crank should succeed");
    assert_eq!(second.page_summary.paid_total, 0);
    assert_eq!(progress.cumulative_distributed_today, 100);
}

#[test]
fn test_zero_locked_page_pays_nobody() {
    let policy = policy(5000, None, 0, 1_000_000);
    let mut progress = Progress::initial(1);
    let investors = vec![investor(11, 0), investor(12, 0)];

    let out = distribute_page(&policy, &mut progress, DAY, 0, false, 0, 1000, &investors)
        .expect("crank should succeed");
    assert_eq!(out.payouts.len(), 0);
    assert_eq!(out.page_summary.paid_total, 0);
    assert_eq!(progress.carry_over_lamports, 0);
    assert_eq!(progress.cursor_idx, 1);
}

#[test]
fn test_empty_investor_page() {
    // A page with no investor records still advances the cursor; nothing
    // is paid and nothing carried over.
    let policy = policy(5000, None, 0, 1_000_000);
    let mut progress = Progress::initial(1);
    let investors: Vec<InvestorAccount> = Vec::new();

    let out = distribute_page(&policy, &mut progress, DAY, 0, false, 0, 1000, &investors)
        .expect("crank should succeed");
    assert_eq!(out.payouts.len(), 0);
    assert_eq!(out.page_summary.paid_total, 0);
    assert_eq!(progress.cursor_idx, 1);
    assert_eq!(progress.carry_over_lamports, 0);
    assert_eq!(progress.cumulative_distributed_today, 0);
}

#[test]
fn test_arithmetic_overflow_is_rejected() {
    // A second enormous page would push the day's cumulative total past
    // the representable range: the call fails and changes nothing.
    let policy = policy(10_000, None, 0, 1000);
    let mut progress = Progress::initial(1);
    let investors = vec![investor(11, 1000)];

    distribute_page(&policy, &mut progress, DAY, 0, false, 0, u64::MAX, &investors)
        .expect("first crank should succeed");
    assert_eq!(progress.cumulative_distributed_today, u64::MAX);
    let snapshot = progress.clone();

    let r = distribute_page(&policy, &mut progress, DAY + 5, 1, false, 0, u64::MAX, &investors);
    assert_eq!(r.err(), Some(DammError::ArithmeticOverflow));
    assert_eq!(progress, snapshot);
}

#[test]
fn test_page_capacity_limit() {
    let policy = policy(10_000, None, 0, 1000);
    let mut progress = Progress::initial(1);
    let investors = vec![investor(11, 1000)];

    // A page index beyond the 512-page capacity can never be processed.
    let r = distribute_page(&policy, &mut progress, DAY, 512, false, 0, 500, &investors);
    assert_eq!(r.err(), Some(DammError::InvalidPaginationCursor));
    let r = distribute_page(&policy, &mut progress, DAY, 700, false, 0, 500, &investors);
    assert_eq!(r.err(), Some(DammError::InvalidPaginationCursor));
}

#[test]
fn test_single_page_day_conserves_claimed_amount() {
    // Conservation: a day settled in one final page with no deferrals
    // accounts for every claimed lamport: payouts plus remainder plus the
    // carry-over left after the close equal the claimed amount.
    let policy = policy(5000, None, 0, 1_000_000);
    let mut progress = Progress::initial(1);
    let investors = vec![investor(11, 300_000), investor(12, 100_000)];

    let claimed = 1000;
    let out = distribute_page(&policy, &mut progress, DAY, 0, true, 0, claimed, &investors)
        .expect("crank should succeed");

    let paid: u64 = out.payouts.iter().map(|p| p.amount).sum();
    let remainder = out.day_closed.expect("day should close").remainder;
    assert_eq!(paid, 400);
    assert_eq!(remainder, 600);
    assert_eq!(paid + remainder + progress.carry_over_lamports, claimed);
}

#[test]
fn test_multi_page_day_conserves_with_zero_claim_pages() {
    // Conservation across pages: when the first page's claim drains the
    // accrued fees, later pages claim zero; with no deferrals the payouts
    // and the remainder still account for everything claimed that day.
    let policy = policy(10_000, None, 0, 1000);
    let mut progress = Progress::initial(1);
    let investors = vec![investor(11, 1000)];

    let first = distribute_page(&policy, &mut progress, DAY, 0, false, 0, 640, &investors)
        .expect("first crank should succeed");
    let second = distribute_page(&policy, &mut progress, DAY + 5, 1, false, 0, 0, &investors)
        .expect("second crank should succeed");
    let last = distribute_page(&policy, &mut progress, DAY + 9, 2, true, 0, 0, &investors)
        .expect("final crank should succeed");

    assert_eq!(first.page_summary.paid_total, 640);
    assert_eq!(second.page_summary.paid_total, 0);
    assert_eq!(last.page_summary.paid_total, 0);
    let remainder = last.day_closed.expect("day should close").remainder;
    let paid_sum = progress.cumulative_distributed_today;
    assert_eq!(remainder, 0);
    assert_eq!(paid_sum + remainder + progress.carry_over_lamports, 640);
}

#[test]
fn test_check_day_gate_decisions() {
    let mut progress = Progress::initial(1);
    // Freshly initialized: closed at day zero; any later day may open.
    assert_eq!(check_day_gate(&progress, 10), GateDecision::NotOpen);
    assert_eq!(check_day_gate(&progress, DAY + 10), GateDecision::Rollover);

    progress.reset_for_new_day(1, DAY + 10);
    assert_eq!(check_day_gate(&progress, DAY + 20), GateDecision::Continue);
    // A different day before 24 hours have elapsed stays gated.
    assert_eq!(check_day_gate(&progress, 2 * DAY + 5), GateDecision::NotOpen);
    assert_eq!(
        check_day_gate(&progress, DAY + 10 + DAY),
        GateDecision::Rollover
    );
}

#[test]
fn test_fee_quote_formula() {
    let p = policy(5000, None, 0, 1_000_000);
    // 400,000 of 1,000,000 locked: 4000 bps beats the 5000 bps policy.
    assert_eq!(compute_investor_fee_quote(&p, 1000, 400_000, 0), Ok(400));
    // With nothing locked nothing is distributable.
    assert_eq!(compute_investor_fee_quote(&p, 1000, 0, 0), Ok(0));
    // Without a baseline allocation the locked fraction is zero.
    let p0 = policy(5000, None, 0, 0);
    assert_eq!(compute_investor_fee_quote(&p0, 1000, 400_000, 0), Ok(0));
    // The cap only admits what is left today.
    let pc = policy(10_000, Some(300), 0, 1000);
    assert_eq!(compute_investor_fee_quote(&pc, 1000, 1000, 250), Ok(50));
    assert_eq!(compute_investor_fee_quote(&pc, 1000, 1000, 300), Ok(0));
}

#[test]
fn test_page_payout_split() {
    let investors = vec![investor(11, 300_000), investor(12, 100_000), investor(13, 0)];
    let (payouts, paid, deferred) = compute_page_payouts(400, 400_000, 0, 7, &investors);
    assert_eq!(paid, 400);
    assert_eq!(deferred, 0);
    assert_eq!(payouts.len(), 2);
    assert_eq!(payouts[0].amount, 300);
    assert_eq!(payouts[1].amount, 100);
    assert_eq!(payouts[0].page_index, 7);

    // Below the minimum, everything is deferred.
    let (payouts, paid, deferred) = compute_page_payouts(400, 400_000, 1000, 7, &investors);
    assert_eq!(payouts.len(), 0);
    assert_eq!(paid, 0);
    assert_eq!(deferred, 400);
}
