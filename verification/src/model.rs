//! The mathematical model of the ledger's stores: balances and allowances as
//! finite maps, with the reads and writes every operation is built from.

use vstd::prelude::*;
use crate::sum::{lemma_total_bounds_entry, lemma_total_insert, lemma_total_remove, total};
use crate::types::{Timestamp, MAX_AMOUNT};

verus! {

/// Balances by account. An account without a record holds zero.
pub type Balances = Map<Seq<char>, nat>;

/// What an owner has granted a spender.
pub struct Grant {
    /// How much the spender may still spend. Never zero in a stored record.
    pub remaining: nat,
    /// The last moment at which the grant is live, if it ever lapses.
    pub expiration: Option<Timestamp>,
}

/// Grants by owner and spender, in that order.
pub type Grants = Map<(Seq<char>, Seq<char>), Grant>;

/// The balance of `account`: its record, or zero where it has none.
pub open spec fn balance_of(balances: Balances, account: Seq<char>) -> nat {
    if balances.contains_key(account) {
        balances[account]
    } else {
        0
    }
}

/// `balances` with the balance of `account` set to `value`. A balance of
/// zero is stored as no record.
pub open spec fn with_balance(balances: Balances, account: Seq<char>, value: nat) -> Balances {
    if value == 0 {
        balances.remove(account)
    } else {
        balances.insert(account, value)
    }
}

/// `balances` after `amount` was added to `account`.
pub open spec fn credit(balances: Balances, account: Seq<char>, amount: nat) -> Balances {
    with_balance(balances, account, balance_of(balances, account) + amount)
}

/// `balances` after `amount` was taken from `account`, which holds at least
/// that much.
pub open spec fn debit(balances: Balances, account: Seq<char>, amount: nat) -> Balances
    recommends
        amount <= balance_of(balances, account),
{
    with_balance(balances, account, (balance_of(balances, account) - amount) as nat)
}

/// The records are finitely many and none of them holds zero.
pub open spec fn balances_wf(balances: Balances) -> bool {
    &&& balances.dom().finite()
    &&& forall|a: Seq<char>| balances.contains_key(a) ==> 0 < #[trigger] balances[a]
}

/// A grant with this expiration has lapsed at `now`.
pub open spec fn is_expired(expiration: Option<Timestamp>, now: Timestamp) -> bool {
    expiration matches Some(e) && now > e
}

/// An expiration that may be newly attached to a grant at `now`: none, or
/// one that lies in the future.
pub open spec fn is_valid_expiration(expiration: Option<Timestamp>, now: Timestamp) -> bool {
    expiration matches Some(e) ==> e > now
}

/// The amount recorded for the pair, lapsed or not; zero without a record.
pub open spec fn stored_allowance(grants: Grants, owner: Seq<char>, spender: Seq<char>) -> nat {
    if grants.contains_key((owner, spender)) {
        grants[(owner, spender)].remaining
    } else {
        0
    }
}

/// The expiration recorded for the pair; none without a record.
pub open spec fn stored_expiration(grants: Grants, owner: Seq<char>, spender: Seq<char>) -> Option<
    Timestamp,
> {
    if grants.contains_key((owner, spender)) {
        grants[(owner, spender)].expiration
    } else {
        None
    }
}

/// What `spender` may spend of `owner`'s funds at `now`: the recorded amount
/// while the grant is live, zero once it has lapsed or where none is recorded.
pub open spec fn live_allowance(
    grants: Grants,
    owner: Seq<char>,
    spender: Seq<char>,
    now: Timestamp,
) -> nat {
    if is_expired(stored_expiration(grants, owner, spender), now) {
        0
    } else {
        stored_allowance(grants, owner, spender)
    }
}

/// `grants` with the pair's grant overwritten. A grant of zero is stored as
/// no record.
pub open spec fn with_grant(
    grants: Grants,
    owner: Seq<char>,
    spender: Seq<char>,
    remaining: nat,
    expiration: Option<Timestamp>,
) -> Grants {
    if remaining == 0 {
        grants.remove((owner, spender))
    } else {
        grants.insert((owner, spender), Grant { remaining, expiration })
    }
}

/// The expiration a changed grant carries: the new one where one is given,
/// else the one already recorded.
pub open spec fn next_expiration(
    grants: Grants,
    owner: Seq<char>,
    spender: Seq<char>,
    new_expiration: Option<Timestamp>,
) -> Option<Timestamp> {
    match new_expiration {
        Some(e) => Some(e),
        None => stored_expiration(grants, owner, spender),
    }
}

/// `grants` after the pair's recorded amount grew by `delta`.
pub open spec fn grant_increased(
    grants: Grants,
    owner: Seq<char>,
    spender: Seq<char>,
    delta: nat,
    new_expiration: Option<Timestamp>,
) -> Grants {
    with_grant(
        grants,
        owner,
        spender,
        stored_allowance(grants, owner, spender) + delta,
        next_expiration(grants, owner, spender, new_expiration),
    )
}

/// `grants` after `delta` was taken from the pair's live allowance at `now`,
/// which is at least that much.
pub open spec fn grant_decreased(
    grants: Grants,
    owner: Seq<char>,
    spender: Seq<char>,
    delta: nat,
    new_expiration: Option<Timestamp>,
    now: Timestamp,
) -> Grants
    recommends
        delta <= live_allowance(grants, owner, spender, now),
{
    with_grant(
        grants,
        owner,
        spender,
        (live_allowance(grants, owner, spender, now) - delta) as nat,
        next_expiration(grants, owner, spender, new_expiration),
    )
}

/// The records are finitely many, none of them grants zero, and each fits in
/// an amount.
pub open spec fn grants_wf(grants: Grants) -> bool {
    &&& grants.dom().finite()
    &&& forall|k: (Seq<char>, Seq<char>)|
        grants.contains_key(k) ==> 0 < (#[trigger] grants[k]).remaining <= MAX_AMOUNT
}

/// Setting a balance keeps the records well formed, reads back as written,
/// leaves every other account alone, and moves the total by the difference.
pub proof fn lemma_with_balance(balances: Balances, account: Seq<char>, value: nat)
    requires
        balances_wf(balances),
    ensures
        balances_wf(with_balance(balances, account, value)),
        balance_of(with_balance(balances, account, value), account) == value,
        forall|other: Seq<char>|
            other != account ==> balance_of(with_balance(balances, account, value), other)
                == balance_of(balances, other),
        total(with_balance(balances, account, value)) == total(balances) - balance_of(
            balances,
            account,
        ) + value,
{
    if balances.contains_key(account) {
        lemma_total_remove(balances, account);
    } else {
        assert(balances.remove(account) =~= balances);
    }
    lemma_total_insert(balances, account, value);
}

/// No account holds more than the total.
pub proof fn lemma_balance_within_total(balances: Balances, account: Seq<char>)
    requires
        balances.dom().finite(),
    ensures
        balance_of(balances, account) <= total(balances),
{
    if balances.contains_key(account) {
        lemma_total_bounds_entry(balances, account);
    }
}

} // verus!
