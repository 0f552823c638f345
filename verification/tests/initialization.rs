use damm_honorary_fee::engine::initialize_honorary_position;
use damm_honorary_fee::engine::validate_quote_only_position;
use damm_honorary_fee::errors::DammError;

#[test]
fn test_initialize_honorary_position() {
    let pool = 71;
    let quote_mint = 20;
    let vault = 5;
    let r = initialize_honorary_position(
        pool,
        quote_mint,
        33,
        true,
        8,
        quote_mint,
        -100,
        100,
        vault,
        5000,
        Some(1_000_000_000),
        100_000,
        1_000_000_000,
    );
    let out = r.expect("initialization should succeed");

    assert_eq!(out.policy.vault, vault);
    assert_eq!(out.policy.quote_mint, quote_mint);
    assert_eq!(out.policy.investor_fee_share_bps, 5000);
    assert_eq!(out.policy.daily_cap_lamports, Some(1_000_000_000));
    assert_eq!(out.policy.min_payout_lamports, 100_000);
    assert_eq!(out.policy.y0, 1_000_000_000);

    assert_eq!(out.honorary_position.pool, pool);
    assert_eq!(out.honorary_position.position, 33);
    assert_eq!(out.honorary_position.owner_pda, 8);
    assert_eq!(out.honorary_position.quote_mint, quote_mint);
    assert_eq!(out.honorary_position.tick_lower, -100);
    assert_eq!(out.honorary_position.tick_upper, 100);

    assert_eq!(out.progress.vault, vault);
    assert_eq!(out.progress.day_id, 0);
    assert_eq!(out.progress.last_distribution_ts, 0);
    assert_eq!(out.progress.cumulative_distributed_today, 0);
    assert_eq!(out.progress.carry_over_lamports, 0);
    assert_eq!(out.progress.cursor_idx, 0);
    assert!(out.progress.is_closed);
    assert!(!out.progress.is_page_processed(0));

    assert_eq!(out.event.pool, pool);
    assert_eq!(out.event.position, 33);
    assert_eq!(out.event.quote_mint, quote_mint);
    assert_eq!(out.event.tick_lower, -100);
    assert_eq!(out.event.tick_upper, 100);
}

#[test]
fn test_quote_only_validation() {
    // An inverted or empty tick range is rejected outright.
    assert_eq!(
        validate_quote_only_position(10, 10),
        Err(DammError::InvalidTickRange)
    );
    assert_eq!(
        validate_quote_only_position(10, -10),
        Err(DammError::InvalidTickRange)
    );
    assert_eq!(validate_quote_only_position(-10, 10), Ok(()));

    // A position that is not quote-only is rejected at initialization.
    let r = initialize_honorary_position(
        1, 2, 3, false, 4, 2, -5, 5, 6, 100, None, 0, 1000,
    );
    assert_eq!(r.err(), Some(DammError::NotQuoteOnly));
}

#[test]
fn test_init_rejects_invalid_tick_range() {
    let r = initialize_honorary_position(
        1, 2, 3, true, 4, 2, 5, 5, 6, 100, None, 0, 1000,
    );
    assert_eq!(r.err(), Some(DammError::InvalidTickRange));
}

#[test]
fn test_init_rejects_wrong_quote_mint() {
    let r = initialize_honorary_position(
        1, 2, 3, true, 4, 9, -5, 5, 6, 100, None, 0, 1000,
    );
    assert_eq!(r.err(), Some(DammError::InvalidQuoteMint));
}

#[test]
fn test_init_rejects_excessive_fee_share() {
    let r = initialize_honorary_position(
        1, 2, 3, true, 4, 2, -5, 5, 6, 10_001, None, 0, 1000,
    );
    assert_eq!(r.err(), Some(DammError::InvalidFeeShareBps));
    // Exactly 10000 basis points is still a valid share.
    let r = initialize_honorary_position(
        1, 2, 3, true, 4, 2, -5, 5, 6, 10_000, None, 0, 1000,
    );
    assert!(r.is_ok());
}
