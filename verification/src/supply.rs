//! The supply tracker: the one counter of tokens in circulation.

use vstd::prelude::*;
use crate::error::LedgerError;
use crate::types::{Amount, MAX_AMOUNT};

verus! {

/// The total circulating supply. Only minting raises it and only burning
/// lowers it.
pub struct SupplyTracker {
    total: Amount,
}

impl View for SupplyTracker {
    type V = nat;

    closed spec fn view(&self) -> nat {
        self.total as nat
    }
}

impl SupplyTracker {
    /// A tracker holding `total`.
    pub fn new(total: Amount) -> (tracker: Self)
        ensures
            tracker@ == total,
    {
        SupplyTracker { total }
    }

    /// The supply fits in an amount.
    pub proof fn lemma_view(&self)
        ensures
            self@ <= MAX_AMOUNT,
    {
    }

    /// The current supply.
    pub fn total(&self) -> (total: Amount)
        ensures
            total == self@,
    {
        self.total
    }

    /// Raises the supply by `amount`, or fails with `Overflow` and changes
    /// nothing when the sum does not fit in an amount.
    pub fn mint_supply(&mut self, amount: Amount) -> (r: Result<(), LedgerError>)
        ensures
            old(self)@ + amount <= MAX_AMOUNT ==> r == Ok::<(), LedgerError>(()) && final(self)@
                == old(self)@ + amount,
            old(self)@ + amount > MAX_AMOUNT ==> r == Err::<(), LedgerError>(LedgerError::Overflow)
                && final(self)@ == old(self)@,
    {
        match crate::amount::add(self.total, amount) {
            Ok(total) => {
                self.total = total;
                Ok(())
            },
            Err(e) => Err(e),
        }
    }

    /// Lowers the supply by `amount`, or fails with `Underflow` and changes
    /// nothing when `amount` is larger than the supply.
    pub fn burn_supply(&mut self, amount: Amount) -> (r: Result<(), LedgerError>)
        ensures
            amount <= old(self)@ ==> r == Ok::<(), LedgerError>(()) && final(self)@ == old(self)@
                - amount,
            amount > old(self)@ ==> r == Err::<(), LedgerError>(LedgerError::Underflow)
                && final(self)@ == old(self)@,
    {
        match crate::amount::sub(self.total, amount) {
            Ok(total) => {
                self.total = total;
                Ok(())
            },
            Err(e) => Err(e),
        }
    }
}

} // verus!
