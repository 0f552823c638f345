//! Persistent records of one vault: the immutable distribution policy and
//! the mutable daily progress, together with the read-only position
//! descriptor and the per-call investor records.
//!
//! Account identifiers (vault, mints, positions, payout destinations) are
//! opaque to the engine: it only stores and compares them, so they are
//! carried as plain `u64` values.

use vstd::prelude::*;

verus! {

/// Pages trackable per day by the processed-page record.
pub const MAX_PAGES: u32 = 512;

/// Bytes of the processed-page bit-set: one bit per page.
pub const BITMAP_BYTES: usize = 64;

/// Length of the distribution window and of one day.
pub const SECONDS_PER_DAY: u64 = 86400;

/// Denominator of a basis-point share.
pub const BPS_DENOMINATOR: u64 = 10000;

/// The day that contains a timestamp.
pub open spec fn spec_day_of(ts: int) -> int {
    ts / (SECONDS_PER_DAY as int)
}

/// Whether bit `bit` of `byte` is set.
pub open spec fn spec_bit_set(byte: u8, bit: u8) -> bool {
    byte & (1u8 << bit) != 0u8
}

/// Immutable distribution parameters of one vault, created once.
#[derive(Clone, Debug, PartialEq, Eq)]
pub struct Policy {
    /// The vault this policy belongs to.
    pub vault: u64,
    /// The quote mint all amounts are denominated in.
    pub quote_mint: u64,
    /// Share of claimed fees that may go to investors, in basis points.
    pub investor_fee_share_bps: u16,
    /// Cap on the total distributed to investors per day, if configured.
    pub daily_cap_lamports: Option<u64>,
    /// Floor below which an individual payout is deferred to carry-over.
    pub min_payout_lamports: u64,
    /// Total investor allocation at the baseline epoch.
    pub y0: u64,
}

impl Policy {
    /// A policy is valid when its share does not exceed 10000 basis points.
    pub open spec fn inv(self) -> bool {
        self.investor_fee_share_bps <= BPS_DENOMINATOR
    }
}

/// Read-only descriptor of the honorary fee position, created once.
#[derive(Clone, Copy, Debug, PartialEq, Eq, Structural)]
pub struct HonoraryPositionAccount {
    /// The pool the position belongs to.
    pub pool: u64,
    /// The position itself.
    pub position: u64,
    /// The program authority that owns the position.
    pub owner_pda: u64,
    /// The quote mint the position accrues fees in.
    pub quote_mint: u64,
    /// Lower bound of the position's tick range.
    pub tick_lower: i32,
    /// Upper bound of the position's tick range.
    pub tick_upper: i32,
}

/// Destination and locked amount of one investor for one page; supplied by
/// the caller per call and not persisted.
#[derive(Clone, Copy, Debug, PartialEq, Eq, Structural)]
pub struct InvestorAccount {
    /// The investor's quote token account, destination of the payout.
    pub investor_quote_ata: u64,
    /// The stream the locked amount was read from.
    pub stream_pubkey: u64,
    /// The investor's currently locked amount.
    pub locked_amount: u64,
}

/// Mutable per-vault daily distribution state, mutated only by the engine.
#[derive(Clone, Debug, PartialEq, Eq)]
pub struct Progress {
    /// The vault this progress belongs to.
    pub vault: u64,
    /// The currently open (or last closed) day.
    pub day_id: u64,
    /// When the engine last touched this vault.
    pub last_distribution_ts: i64,
    /// Total paid to investors since the day opened.
    pub cumulative_distributed_today: u64,
    /// Undistributed dust deferred for later settlement.
    pub carry_over_lamports: u64,
    /// The next expected page index of the day.
    pub cursor_idx: u32,
    /// Whether the day has been closed.
    pub is_closed: bool,
    /// One bit per page index of the current day, set when processed.
    pub processed_pages_bitmap: Vec<u8>,
}

impl Progress {
    /// Whether page `i` is marked processed in the bit-set.
    pub open spec fn spec_page_processed(self, i: int) -> bool {
        &&& 0 <= i < MAX_PAGES as int
        &&& spec_bit_set(self.processed_pages_bitmap@[i / 8], (i % 8) as u8)
    }

    /// Well-formedness: the bit-set has its fixed size, the cursor is in
    /// range, exactly the pages below the cursor are marked processed, and
    /// the day id matches the day of the last distribution.
    pub open spec fn inv(self) -> bool {
        &&& self.processed_pages_bitmap@.len() == BITMAP_BYTES
        &&& self.cursor_idx <= MAX_PAGES
        &&& forall|i: int|
            0 <= i < MAX_PAGES as int ==> (self.spec_page_processed(i) <==> i < self.cursor_idx as int)
        &&& self.last_distribution_ts >= 0
        &&& self.day_id as int == spec_day_of(self.last_distribution_ts as int)
    }

    /// The state of a vault in which no distribution has occurred yet: day
    /// zero, closed, everything at zero.
    pub fn initial(vault: u64) -> (p: Progress)
        ensures
            p.inv(),
            p.vault == vault,
            p.day_id == 0u64,
            p.last_distribution_ts == 0i64,
            p.cumulative_distributed_today == 0u64,
            p.carry_over_lamports == 0u64,
            p.cursor_idx == 0u32,
            p.is_closed,
            forall|i: int| 0 <= i < MAX_PAGES as int ==> !p.spec_page_processed(i),
    {
        let p = Progress {
            vault,
            day_id: 0,
            last_distribution_ts: 0,
            cumulative_distributed_today: 0,
            carry_over_lamports: 0,
            cursor_idx: 0,
            is_closed: true,
            processed_pages_bitmap: empty_page_bitmap(),
        };
        proof {
            assert forall|i: int| 0 <= i < MAX_PAGES as int implies !p.spec_page_processed(i) by {
                lemma_zero_byte_has_no_bit((i % 8) as u8);
            }
        }
        p
    }

    /// Whether a page of the current day has already completed.  Pages at
    /// or beyond the capacity are never marked.
    pub fn is_page_processed(&self, idx: u32) -> (processed: bool)
        requires
            self.processed_pages_bitmap@.len() == BITMAP_BYTES,
        ensures
            processed == self.spec_page_processed(idx as int),
    {
        if idx >= MAX_PAGES {
            return false;
        }
        let byte_index: usize = (idx / 8) as usize;
        let bit_index: u8 = (idx % 8) as u8;
        let byte: u8 = self.processed_pages_bitmap[byte_index];
        byte & (1u8 << bit_index) != 0u8
    }

    /// Mark a page of the current day as completed.  Only the addressed bit
    /// changes; every other field keeps its value.
    pub fn mark_page_processed(&mut self, idx: u32)
        requires
            old(self).processed_pages_bitmap@.len() == BITMAP_BYTES,
            idx < MAX_PAGES,
        ensures
            final(self).processed_pages_bitmap@.len() == BITMAP_BYTES,
            forall|i: int|
                0 <= i < MAX_PAGES as int ==> (final(self).spec_page_processed(i) <==> (i
                    == idx as int || old(self).spec_page_processed(i))),
            final(self).vault == old(self).vault,
            final(self).day_id == old(self).day_id,
            final(self).last_distribution_ts == old(self).last_distribution_ts,
            final(self).cumulative_distributed_today == old(self).cumulative_distributed_today,
            final(self).carry_over_lamports == old(self).carry_over_lamports,
            final(self).cursor_idx == old(self).cursor_idx,
            final(self).is_closed == old(self).is_closed,
    {
        let byte_index: usize = (idx / 8) as usize;
        let bit_index: u8 = (idx % 8) as u8;
        let byte: u8 = self.processed_pages_bitmap[byte_index];
        let marked: u8 = byte | (1u8 << bit_index);
        self.processed_pages_bitmap.set(byte_index, marked);
        proof {
            assert forall|i: int|
                0 <= i < MAX_PAGES as int implies (self.spec_page_processed(i) <==> (i
                == idx as int || old(self).spec_page_processed(i))) by {
                vstd::arithmetic::div_mod::lemma_fundamental_div_mod(i, 8);
                vstd::arithmetic::div_mod::lemma_fundamental_div_mod(idx as int, 8);
                if i / 8 == idx as int / 8 {
                    lemma_set_bit_in_byte(byte, bit_index, (i % 8) as u8);
                }
            }
        }
    }

    /// Roll the record over to a freshly opened day: accumulators to zero,
    /// cursor to zero, all pages unprocessed, day open.
    pub fn reset_for_new_day(&mut self, day_id: u64, now_ts: i64)
        requires
            old(self).processed_pages_bitmap@.len() == BITMAP_BYTES,
        ensures
            final(self).vault == old(self).vault,
            final(self).day_id == day_id,
            final(self).last_distribution_ts == now_ts,
            final(self).cumulative_distributed_today == 0u64,
            final(self).carry_over_lamports == 0u64,
            final(self).cursor_idx == 0u32,
            !final(self).is_closed,
            final(self).processed_pages_bitmap@.len() == BITMAP_BYTES,
            forall|i: int| 0 <= i < MAX_PAGES as int ==> !final(self).spec_page_processed(i),
    {
        self.day_id = day_id;
        self.last_distribution_ts = now_ts;
        self.cumulative_distributed_today = 0;
        self.carry_over_lamports = 0;
        self.cursor_idx = 0;
        self.is_closed = false;
        self.processed_pages_bitmap = empty_page_bitmap();
        proof {
            assert forall|i: int| 0 <= i < MAX_PAGES as int implies !self.spec_page_processed(
                i,
            ) by {
                lemma_zero_byte_has_no_bit((i % 8) as u8);
            }
        }
    }
}

/// A cleared processed-page bit-set.
fn empty_page_bitmap() -> (bitmap: Vec<u8>)
    ensures
        bitmap@.len() == BITMAP_BYTES,
        forall|i: int| 0 <= i < BITMAP_BYTES as int ==> bitmap@[i] == 0u8,
{
    let mut bitmap: Vec<u8> = Vec::new();
    let mut i: usize = 0;
    while i < BITMAP_BYTES
        invariant
            i <= BITMAP_BYTES,
            bitmap@.len() == i as int,
            forall|j: int| 0 <= j < i as int ==> bitmap@[j] == 0u8,
        decreases BITMAP_BYTES - i,
    {
        bitmap.push(0);
        i = i + 1;
    }
    bitmap
}

/// A cleared byte has no bit set.
proof fn lemma_zero_byte_has_no_bit(bit: u8)
    by (bit_vector)
    requires
        bit < 8,
    ensures
        0u8 & (1u8 << bit) == 0u8,
{
}

/// Setting one bit of a byte sets exactly that bit and keeps the others.
proof fn lemma_set_bit_in_byte(byte: u8, bit: u8, other: u8)
    by (bit_vector)
    requires
        bit < 8,
        other < 8,
    ensures
        ((byte | (1u8 << bit)) & (1u8 << other) != 0u8) <==> (other == bit || (byte & (1u8
            << other)) != 0u8),
{
}

} // verus!
