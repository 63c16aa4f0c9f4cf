//! Checked arithmetic on amounts. Every change to a balance, an allowance or
//! the total supply goes through [`add`] and [`sub`].

use vstd::prelude::*;
use crate::error::LedgerError;
use crate::types::{Amount, MAX_AMOUNT};

verus! {

/// `a + b`, or `Overflow` when the sum does not fit in an [`Amount`].
pub fn add(a: Amount, b: Amount) -> (r: Result<Amount, LedgerError>)
    ensures
        a + b <= MAX_AMOUNT ==> r == Ok::<Amount, LedgerError>((a + b) as Amount),
        a + b > MAX_AMOUNT ==> r == Err::<Amount, LedgerError>(LedgerError::Overflow),
{
    match a.checked_add(b) {
        Some(sum) => Ok(sum),
        None => Err(LedgerError::Overflow),
    }
}

/// `a - b`, or `Underflow` when `b` is larger than `a`.
pub fn sub(a: Amount, b: Amount) -> (r: Result<Amount, LedgerError>)
    ensures
        b <= a ==> r == Ok::<Amount, LedgerError>((a - b) as Amount),
        b > a ==> r == Err::<Amount, LedgerError>(LedgerError::Underflow),
{
    match a.checked_sub(b) {
        Some(difference) => Ok(difference),
        None => Err(LedgerError::Underflow),
    }
}

} // verus!
