//! What a host has to keep between requests: the ledger's whole state as
//! plain values, and the conditions under which such values are a ledger's.

use vstd::prelude::*;
use crate::allowances::{allowance_entries_valid, allowance_pairs, AllowanceEntry};
use crate::assoc::as_map;
use crate::balances::{balance_entries_valid, balance_pairs, BalanceEntry};
use crate::msg::TokenInfo;
use crate::state::{account_view, amount_view, State};
use crate::types::{Account, Amount};

verus! {

/// The persisted form of a ledger: its configuration, its two maps as lists
/// of records, and its supply counter.
#[derive(Clone, Debug, PartialEq, Eq)]
pub struct Snapshot {
    pub token: TokenInfo,
    pub minter: Option<Account>,
    pub cap: Option<Amount>,
    pub null_account: Option<Account>,
    pub balances: Vec<BalanceEntry>,
    pub allowances: Vec<AllowanceEntry>,
    pub total_supply: Amount,
}

/// The state a snapshot stands for.
pub open spec fn snapshot_state(snapshot: Snapshot) -> State {
    State {
        token: snapshot.token,
        minter: account_view(snapshot.minter),
        cap: amount_view(snapshot.cap),
        null_account: account_view(snapshot.null_account),
        balances: as_map(balance_pairs(snapshot.balances@)),
        allowances: as_map(allowance_pairs(snapshot.allowances@)),
        total_supply: snapshot.total_supply as nat,
    }
}

/// The snapshot is a ledger's: no key is recorded twice, nothing recorded is
/// zero, and the state it stands for meets the ledger's invariant. In
/// particular its supply counter is the sum of its balances.
pub open spec fn snapshot_valid(snapshot: Snapshot) -> bool {
    &&& balance_entries_valid(snapshot.balances@)
    &&& allowance_entries_valid(snapshot.allowances@)
    &&& snapshot_state(snapshot).wf()
}

} // verus!
