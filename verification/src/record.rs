//! The escrow record: one per deal, created by Make, consumed by Take or
//! Refund.
//!
//! Four deal shapes share one tagged record type: a single-asset full-fill
//! swap, a single-asset partial-fill swap with running-balance bookkeeping,
//! a multi-asset bundle swap, and a single-asset swap with a hard expiry
//! deadline. They differ only in their asset terms and in the precondition
//! and settlement arithmetic their tag selects.

use vstd::prelude::*;

verus! {

/// One bundle entry: an amount of one registered asset.
#[derive(Clone, Copy)]
pub struct TokenData {
    /// Handle of the asset.
    pub mint: usize,
    /// Amount, in the asset's smallest unit.
    pub amount: u64,
}

/// The variant-dependent asset terms of an escrow record.
pub enum Terms {
    /// The whole deposit is claimed at once against a fixed counter-amount.
    FullFill {
        /// Asset the maker deposited.
        offered_mint: usize,
        /// Asset the maker wants in return.
        expected_mint: usize,
        /// Amount of the expected asset the taker must pay.
        receive: u64,
    },
    /// The deposit may be claimed in portions; the counter-amount scales
    /// per unit taken.
    PartialFill {
        /// Asset the maker deposited.
        offered_mint: usize,
        /// Asset the maker wants in return.
        expected_mint: usize,
        /// Amount deposited at creation.
        total_amount: u64,
        /// Amount not yet taken; always positive while the record exists.
        remaining_amount: u64,
        /// Expected-asset price of one unit of the offered asset.
        receive_per_unit: u64,
    },
    /// An ordered bundle of assets is swapped against another bundle, all
    /// or nothing.
    MultiAsset {
        /// Deposited bundle, one custody vault per entry.
        offered: Vec<TokenData>,
        /// Bundle the maker wants in return.
        expected: Vec<TokenData>,
    },
    /// A full-fill swap that can only be taken before a deadline and only
    /// be refunded at or after it.
    TimeBoxed {
        /// Asset the maker deposited.
        offered_mint: usize,
        /// Asset the maker wants in return.
        expected_mint: usize,
        /// Amount of the expected asset the taker must pay.
        receive: u64,
        /// Deadline, in whole seconds.
        expires_at: i64,
    },
}

/// One escrow deal: who opened it, under which seed, what it trades, and
/// the handles of the custody vault(s) holding the deposit.
pub struct Escrow {
    /// Maker-chosen 64-bit value disambiguating concurrent escrows from the
    /// same maker; part of the custody derivation.
    pub seed: u64,
    /// Identity of the creator; sole beneficiary of a refund.
    pub maker: [u8; 32],
    /// The deal's asset terms, tagged by deal shape.
    pub terms: Terms,
    /// The derivation discriminant chosen at creation, kept so the custody
    /// address can be reconstructed.
    pub bump: u8,
    /// Custody account handles: one for single-asset shapes, one per
    /// offered entry for the bundle shape.
    pub vaults: Vec<usize>,
}

/// The upper bound on bundle length, each side.
pub const MAX_BUNDLE_LEN: usize = 10;

/// The internal consistency of stored terms: a partial-fill balance never
/// exceeds its total and stays positive while the record exists; bundles
/// are non-empty, bounded, and offer only positive amounts.
pub open spec fn terms_wf(t: Terms) -> bool {
    match t {
        Terms::FullFill { .. } => true,
        Terms::PartialFill { total_amount, remaining_amount, .. } => 0 < remaining_amount
            <= total_amount,
        Terms::MultiAsset { offered, expected } => {
            &&& 1 <= offered@.len() <= MAX_BUNDLE_LEN
            &&& 1 <= expected@.len() <= MAX_BUNDLE_LEN
            &&& forall|k: int| 0 <= k < offered@.len() ==> (#[trigger] offered@[k]).amount > 0
        },
        Terms::TimeBoxed { .. } => true,
    }
}

/// The number of custody vaults a record with these terms owns.
pub open spec fn vault_count(t: Terms) -> int {
    match t {
        Terms::MultiAsset { offered, .. } => offered@.len() as int,
        _ => 1,
    }
}

/// The asset the record's `k`-th custody vault holds.
pub open spec fn vault_mint(t: Terms, k: int) -> usize {
    match t {
        Terms::FullFill { offered_mint, .. } => offered_mint,
        Terms::PartialFill { offered_mint, .. } => offered_mint,
        Terms::MultiAsset { offered, .. } => offered@[k].mint,
        Terms::TimeBoxed { offered_mint, .. } => offered_mint,
    }
}

/// The counter-asset a single-asset record expects from a taker.
pub open spec fn expected_mint_of(t: Terms) -> usize {
    match t {
        Terms::FullFill { expected_mint, .. } => expected_mint,
        Terms::PartialFill { expected_mint, .. } => expected_mint,
        Terms::MultiAsset { .. } => 0,
        Terms::TimeBoxed { expected_mint, .. } => expected_mint,
    }
}

/// What a maker asks for when creating an escrow; mirrors [`Terms`] but
/// carries creation-time inputs (the deposit, a duration instead of a
/// deadline).
pub enum MakeTerms {
    /// Create a full-fill swap.
    FullFill {
        /// Asset to deposit.
        offered_mint: usize,
        /// Asset wanted in return.
        expected_mint: usize,
        /// Amount to deposit.
        deposit: u64,
        /// Amount of the expected asset a taker must pay.
        receive: u64,
    },
    /// Create a partial-fill swap.
    PartialFill {
        /// Asset to deposit.
        offered_mint: usize,
        /// Asset wanted in return.
        expected_mint: usize,
        /// Amount to deposit.
        deposit: u64,
        /// Expected-asset price of one unit of the offered asset.
        receive_per_unit: u64,
    },
    /// Create a bundle swap.
    MultiAsset {
        /// Bundle to deposit, one vault per entry.
        offered: Vec<TokenData>,
        /// Bundle wanted in return.
        expected: Vec<TokenData>,
    },
    /// Create a time-boxed swap expiring `duration` seconds from now.
    TimeBoxed {
        /// Asset to deposit.
        offered_mint: usize,
        /// Asset wanted in return.
        expected_mint: usize,
        /// Amount to deposit.
        deposit: u64,
        /// Amount of the expected asset a taker must pay.
        receive: u64,
        /// Seconds until the deal expires.
        duration: i64,
    },
}

/// The accounts a taker supplies, shaped per deal variant.
pub enum TakeRequest {
    /// Fulfill a full-fill or time-boxed swap.
    Settle {
        /// Taker's account paying the expected asset.
        pay_source: usize,
        /// Maker's account receiving the expected asset.
        maker_dest: usize,
        /// Taker's account receiving the offered asset.
        recv_dest: usize,
    },
    /// Fulfill part (or all) of a partial-fill swap.
    SettlePartial {
        /// How much of the offered asset to claim.
        amount_to_take: u64,
        /// Taker's account paying the expected asset.
        pay_source: usize,
        /// Maker's account receiving the expected asset.
        maker_dest: usize,
        /// Taker's account receiving the offered asset.
        recv_dest: usize,
    },
    /// Fulfill a bundle swap. `handles` is a flat list, three handles per
    /// bundle entry — `(asset, source, destination)` — first one triple per
    /// expected entry, then one per offered entry; its length must be three
    /// times the combined bundle length.
    SettleBundle {
        /// The flat handle list.
        handles: Vec<usize>,
    },
}

/// The accounts a maker supplies to reclaim custody, shaped per deal
/// variant.
pub enum RefundRequest {
    /// Reclaim from a single-asset escrow.
    Reclaim {
        /// Maker's account receiving the deposit back.
        maker_dest: usize,
    },
    /// Reclaim from a bundle escrow. `handles` is a flat list, three
    /// handles per offered entry: `(asset, vault, destination)`.
    ReclaimBundle {
        /// The flat handle list.
        handles: Vec<usize>,
    },
}

/// Whether a take request has the shape the record's variant calls for.
pub open spec fn take_request_matches(t: Terms, req: TakeRequest) -> bool {
    match t {
        Terms::FullFill { .. } => req is Settle,
        Terms::PartialFill { .. } => req is SettlePartial,
        Terms::MultiAsset { .. } => req is SettleBundle,
        Terms::TimeBoxed { .. } => req is Settle,
    }
}

/// Whether a refund request has the shape the record's variant calls for.
pub open spec fn refund_request_matches(t: Terms, req: RefundRequest) -> bool {
    match t {
        Terms::MultiAsset { .. } => req is ReclaimBundle,
        _ => req is Reclaim,
    }
}

} // verus!
