//! The typed failures of the ledger.

use vstd::prelude::*;

verus! {

/// Why an operation was refused. A refused operation changes nothing.
#[derive(Clone, Copy, Debug, PartialEq, Eq, Structural)]
pub enum LedgerError {
    /// A sum would exceed the range of an amount.
    Overflow,
    /// A difference would fall below zero.
    Underflow,
    /// The debited account holds less than the amount asked for.
    InsufficientFunds,
    /// The spender's live allowance is smaller than the amount asked for.
    InsufficientAllowance,
    /// The operation needs a positive amount and was given zero.
    InvalidZeroAmount,
    /// The recipient is the ledger's null account.
    InvalidRecipient,
    /// The expiration given is not in the future.
    InvalidExpiration,
    /// The caller may not perform the operation.
    Unauthorized,
    /// Minting would push the total supply above the configured cap.
    SupplyCapExceeded,
}

} // verus!
