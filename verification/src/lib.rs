//! A verified escrow engine for atomic asset exchange.
//!
//! A maker deposits an asset bundle into custody vaults controlled by a
//! derived, keyless authority and declares what it wants in return; a taker
//! claims the custodied assets (in full, in part, or bundle-wise) by paying
//! the declared counter-asset; the maker reclaims unclaimed custody by
//! refund. Four deal shapes share one record type and one lifecycle.

use vstd::prelude::*;

pub mod authority;
pub mod engine;
pub mod laws;
pub mod ledger;
pub mod errors;
pub mod record;

verus! {

} // verus!
