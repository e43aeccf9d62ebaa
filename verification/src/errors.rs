//! Typed failures of the escrow protocol.
//!
//! Every public operation either completes fully or aborts with one of these
//! kinds and no state change.

use vstd::prelude::*;

verus! {

/// The reasons an escrow operation can fail. An operation reports the first
/// error encountered and leaves every record and balance unchanged.
#[derive(Clone, Copy, Debug, PartialEq, Eq, Structural)]
pub enum EscrowError {
    /// A zero amount was supplied where a positive amount is required.
    InvalidAmount,
    /// A partial take asked for more than the escrow still holds.
    ExceedsRemainingAmount,
    /// The protocol's own arithmetic — the scaling multiplication of a
    /// partial take, or a deadline computation — would wrap.
    ArithmeticOverflow,
    /// A flat handle list does not match the declared bundle arity.
    BundleLengthMismatch,
    /// A supplied asset handle does not match the declared asset.
    AssetMismatch,
    /// Derived-address verification failed.
    UnauthorizedAuthority,
    /// A take was attempted at or after the deadline.
    EscrowExpired,
    /// A refund was attempted before the deadline.
    EscrowNotExpired,
    /// The custodian holds less than the requested amount.
    InsufficientCustodyBalance,
    /// The destination account cannot absorb the moved amount without its
    /// balance leaving the representable range; propagated from the
    /// custodian, like `InsufficientCustodyBalance`.
    CustodyCapacityExceeded,
}

} // verus!
