//! What holds of the ledger in every state it can reach.

use vstd::prelude::*;
use crate::error::LedgerError;
use crate::model::{balance_of, balances_wf, is_valid_expiration, lemma_balance_within_total};
use crate::msg::{ExecuteMsg, InstantiateMsg};
use crate::state::{blank, genesis, lemma_issue_all, lemma_step_preserves_wf, State};
use crate::sum::{lemma_total_empty, total};
use crate::types::{Account, Amount, Timestamp};

verus! {

/// One request as the ledger receives it.
pub struct Call {
    /// When the request is processed.
    pub now: Timestamp,
    /// Who sent it.
    pub caller: Seq<char>,
    /// What it asks for.
    pub msg: ExecuteMsg,
}

/// The state after `calls` were processed in order, starting from `s`. A
/// call that fails leaves the state as it found it.
pub open spec fn run(s: State, calls: Seq<Call>) -> State
    decreases calls.len(),
{
    if calls.len() == 0 {
        s
    } else {
        run(s, calls.drop_last()).after(calls.last().now, calls.last().caller, calls.last().msg)
    }
}

/// What the request takes out of the balance of `account`.
pub open spec fn outflow(caller: Seq<char>, msg: ExecuteMsg, account: Seq<char>) -> nat {
    match msg {
        ExecuteMsg::Transfer { recipient, amount } if account == caller => amount as nat,
        ExecuteMsg::TransferFrom { owner, recipient, amount } if account == owner@ => amount as nat,
        ExecuteMsg::Burn { amount } if account == caller => amount as nat,
        ExecuteMsg::BurnFrom { owner, amount } if account == owner@ => amount as nat,
        _ => 0,
    }
}

/// What the request puts into the balance of `account`.
pub open spec fn inflow(msg: ExecuteMsg, account: Seq<char>) -> nat {
    match msg {
        ExecuteMsg::Transfer { recipient, amount } if account == recipient@ => amount as nat,
        ExecuteMsg::TransferFrom { owner, recipient, amount } if account == recipient@ => amount as nat,
        ExecuteMsg::Mint { recipient, amount } if account == recipient@ => amount as nat,
        _ => 0,
    }
}

/// A newly created ledger meets the invariant: its total supply is the sum
/// of its balances.
pub proof fn genesis_conserves_supply(msg: InstantiateMsg)
    ensures
        genesis(msg) matches Ok(start) ==> start.wf() && start.total_supply == total(start.balances),
{
    lemma_total_empty::<Seq<char>>();
    lemma_issue_all(blank(msg), msg.initial_balances@);
}

/// Conservation: whatever sequence of requests is processed, and whichever
/// of them fail, the total supply equals the sum of all balances afterwards,
/// and every recorded balance is positive.
pub proof fn supply_is_conserved(s: State, calls: Seq<Call>)
    requires
        s.wf(),
    ensures
        run(s, calls).wf(),
        run(s, calls).total_supply == total(run(s, calls).balances),
        balances_wf(run(s, calls).balances),
    decreases calls.len(),
{
    if calls.len() > 0 {
        supply_is_conserved(s, calls.drop_last());
        lemma_step_preserves_wf(
            run(s, calls.drop_last()),
            calls.last().now,
            calls.last().caller,
            calls.last().msg,
        );
    }
}

/// No balance goes below zero: a request that would take more out of an
/// account than it holds fails, and a request that succeeds leaves every
/// account with what it held, less what was taken out, plus what was put in.
pub proof fn balances_never_go_negative(
    s: State,
    now: Timestamp,
    caller: Seq<char>,
    msg: ExecuteMsg,
    account: Seq<char>,
)
    ensures
        outflow(caller, msg, account) > s.balance(account) ==> s.step(now, caller, msg) is Err,
        s.step(now, caller, msg) matches Ok(next) ==> {
            &&& s.balance(account) - outflow(caller, msg, account) >= 0
            &&& next.balance(account) == s.balance(account) - outflow(caller, msg, account)
                + inflow(msg, account)
        },
{
}

/// A request that fails changes nothing: the state after it is the state
/// before it.
pub proof fn failure_changes_nothing(s: State, now: Timestamp, caller: Seq<char>, msg: ExecuteMsg)
    ensures
        s.step(now, caller, msg) is Err ==> s.after(now, caller, msg) == s,
{
}

/// The part of the state that is set at creation.
pub open spec fn same_configuration(s: State, t: State) -> bool {
    &&& t.token == s.token
    &&& t.minter == s.minter
    &&& t.cap == s.cap
    &&& t.null_account == s.null_account
}

/// No request changes how the ledger was configured.
pub proof fn request_keeps_configuration(
    s: State,
    now: Timestamp,
    caller: Seq<char>,
    msg: ExecuteMsg,
)
    ensures
        same_configuration(s, s.after(now, caller, msg)),
{
    match msg {
        ExecuteMsg::Transfer { .. } => {},
        ExecuteMsg::TransferFrom { .. } => {},
        ExecuteMsg::Mint { .. } => {},
        ExecuteMsg::Burn { .. } => {},
        ExecuteMsg::BurnFrom { .. } => {},
        ExecuteMsg::Approve { .. } => {},
        ExecuteMsg::IncreaseAllowance { .. } => {},
        ExecuteMsg::DecreaseAllowance { .. } => {},
    }
}

/// Whatever sequence of requests is processed, the token's metadata, the
/// minter, the cap and the null account stay as they were set at creation.
pub proof fn configuration_never_changes(s: State, calls: Seq<Call>)
    ensures
        same_configuration(s, run(s, calls)),
    decreases calls.len(),
{
    if calls.len() > 0 {
        configuration_never_changes(s, calls.drop_last());
        request_keeps_configuration(
            run(s, calls.drop_last()),
            calls.last().now,
            calls.last().caller,
            calls.last().msg,
        );
    }
}

/// A transfer that fails for want of funds leaves the balances of the caller
/// and of the recipient as they were.
pub proof fn failed_transfer_moves_nothing(
    s: State,
    now: Timestamp,
    caller: Seq<char>,
    recipient: Account,
    amount: Amount,
)
    ensures
        s.step(now, caller, ExecuteMsg::Transfer { recipient, amount }) == Err::<State, LedgerError>(
            LedgerError::InsufficientFunds,
        ) ==> {
            let next = s.after(now, caller, ExecuteMsg::Transfer { recipient, amount });
            next.balance(caller) == s.balance(caller) && next.balance(recipient@) == s.balance(
                recipient@,
            )
        },
{
}

/// A delegated transfer that succeeds lowers the spender's allowance by
/// exactly the amount moved.
pub proof fn transfer_from_spends_allowance(
    s: State,
    caller: Seq<char>,
    owner: Seq<char>,
    recipient: Seq<char>,
    amount: nat,
    now: Timestamp,
)
    ensures
        s.transfer_from(caller, owner, recipient, amount, now) matches Ok(next) ==> next.allowance(
            owner,
            caller,
            now,
        ) == s.allowance(owner, caller, now) - amount,
{
}

/// `s` without the record of the grant from `owner` to `spender`.
pub open spec fn without_grant(s: State, owner: Seq<char>, spender: Seq<char>) -> State {
    State { allowances: s.allowances.remove((owner, spender)), ..s }
}

/// Expiration: a grant whose expiration lies before `now` counts as no grant
/// at all, though its record is still there. It reads as zero, and every
/// operation that draws on it ends exactly as it would without the record.
pub proof fn lapsed_grant_counts_as_none(
    s: State,
    owner: Seq<char>,
    spender: Seq<char>,
    recipient: Seq<char>,
    amount: nat,
    expires: Option<Timestamp>,
    now: Timestamp,
)
    requires
        s.allowances.contains_key((owner, spender)),
        s.allowances[(owner, spender)].expiration matches Some(e) && e < now,
    ensures
        s.allowance(owner, spender, now) == 0,
        s.allowance_expiration(owner, spender, now) == None::<Timestamp>,
        s.transfer_from(spender, owner, recipient, amount, now) == without_grant(
            s,
            owner,
            spender,
        ).transfer_from(spender, owner, recipient, amount, now),
        s.burn_from(spender, owner, amount, now) == without_grant(s, owner, spender).burn_from(
            spender,
            owner,
            amount,
            now,
        ),
        s.decrease_allowance(owner, spender, amount, expires, now) == without_grant(
            s,
            owner,
            spender,
        ).decrease_allowance(owner, spender, amount, expires, now),
        amount > 0 ==> s.transfer_from(spender, owner, recipient, amount, now) == Err::<
            State,
            LedgerError,
        >(LedgerError::InsufficientAllowance),
        amount > 0 ==> s.burn_from(spender, owner, amount, now) == Err::<State, LedgerError>(
            LedgerError::InsufficientAllowance,
        ),
        amount > 0 && is_valid_expiration(expires, now) ==> s.decrease_allowance(
            owner,
            spender,
            amount,
            expires,
            now,
        ) == Err::<State, LedgerError>(LedgerError::InsufficientAllowance),
{
    let key = (owner, spender);
    let bare = without_grant(s, owner, spender);
    assert(s.allowances.remove(key).remove(key) =~= s.allowances.remove(key));
}

/// Under the invariant the defensive check of the supply never fires: no
/// burn ends in `Underflow`.
pub proof fn burn_never_underflows(
    s: State,
    caller: Seq<char>,
    owner: Seq<char>,
    amount: nat,
    now: Timestamp,
)
    requires
        s.wf(),
    ensures
        s.burn(caller, amount) != Err::<State, LedgerError>(LedgerError::Underflow),
        s.burn_from(caller, owner, amount, now) != Err::<State, LedgerError>(LedgerError::Underflow),
{
    lemma_balance_within_total(s.balances, caller);
    lemma_balance_within_total(s.balances, owner);
}

/// Under the invariant no account holds more than the total supply.
pub proof fn balance_within_supply(s: State, account: Seq<char>)
    requires
        s.wf(),
    ensures
        balance_of(s.balances, account) <= s.total_supply,
{
    lemma_balance_within_total(s.balances, account);
}

} // verus!
