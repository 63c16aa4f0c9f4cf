//! The plain value types the ledger is built from.

use vstd::prelude::*;

verus! {

/// An opaque, unique account identifier. Two accounts are the same exactly
/// when their identifiers hold the same characters.
pub type Account = String;

/// A token quantity.
pub type Amount = u128;

/// A point in time, as an unsigned count of ticks of the host's clock.
pub type Timestamp = u64;

/// The largest quantity an [`Amount`] can hold.
pub const MAX_AMOUNT: Amount = 0xffff_ffff_ffff_ffff_ffff_ffff_ffff_ffff;

} // verus!
