//! The ledger's three entry points: create it, change it, ask it.

use vstd::prelude::*;
use crate::error::LedgerError;
use crate::ledger::Ledger;
use crate::msg::{
    Env, ExecuteMsg, InstantiateMsg, MessageInfo, QueryMsg, QueryResponse, Response, TokenInfo,
};
use crate::state::{
    account_view, amount_view, blank, events_of, genesis, lemma_issue_all_fails, State,
};
use crate::types::Timestamp;

verus! {

/// `response` is what the query `msg` is owed in the state `s` at `now`.
pub open spec fn answer(s: State, now: Timestamp, msg: QueryMsg, response: QueryResponse) -> bool {
    match msg {
        QueryMsg::Balance { address } => response matches QueryResponse::Balance { balance }
            && balance == s.balance(address@),
        QueryMsg::Allowance { owner, spender } => response matches QueryResponse::Allowance {
            allowance,
            expires,
        } && allowance == s.allowance(owner@, spender@, now) && expires == s.allowance_expiration(
            owner@,
            spender@,
            now,
        ),
        QueryMsg::TotalSupply => response matches QueryResponse::TotalSupply { total_supply }
            && total_supply == s.total_supply,
        QueryMsg::TokenInfo => response matches QueryResponse::TokenInfo {
            name,
            symbol,
            decimals,
            total_supply,
        } && name == s.token.name && symbol == s.token.symbol && decimals == s.token.decimals
            && total_supply == s.total_supply,
        QueryMsg::Minter => response matches QueryResponse::Minter { minter, cap } && account_view(
            minter,
        ) == s.minter && amount_view(cap) == s.cap,
    }
}

/// Creates a ledger: configured as `msg` says, with each initial balance
/// issued in the order given.
///
/// Fails with `Overflow` when the supply would not fit in an amount, or with
/// `SupplyCapExceeded` when it would exceed the configured cap, at the first
/// initial balance at which either happens.
pub fn instantiate(msg: InstantiateMsg) -> (r: Result<Ledger, LedgerError>)
    ensures
        match r {
            Ok(ledger) => ledger.wf() && genesis(msg) == Ok::<State, LedgerError>(ledger@),
            Err(e) => genesis(msg) == Err::<State, LedgerError>(e),
        },
{
    let ghost start = blank(msg);
    let InstantiateMsg { name, symbol, decimals, initial_balances, minter, cap, null_account } = msg;
    let mut ledger = Ledger::new(TokenInfo { name, symbol, decimals }, minter, cap, null_account);
    let mut i: usize = 0;
    while i < initial_balances.len()
        invariant
            i <= initial_balances.len(),
            start == blank(msg),
            initial_balances == msg.initial_balances,
            ledger.wf(),
            start.issue_all(initial_balances@.take(i as int)) == Ok::<State, LedgerError>(ledger@),
        decreases initial_balances.len() - i,
    {
        let ghost upto = initial_balances@.take(i as int + 1);
        assert(upto.drop_last() =~= initial_balances@.take(i as int));
        match ledger.issue(&initial_balances[i].account, initial_balances[i].amount) {
            Ok(()) => {},
            Err(e) => {
                proof {
                    assert(upto.last() == initial_balances@[i as int]);
                    assert(start.issue_all(upto) == Err::<State, LedgerError>(e));
                    lemma_issue_all_fails(start, initial_balances@, i as int + 1);
                }
                return Err(e);
            },
        }
        i += 1;
    }
    assert(initial_balances@.take(i as int) =~= initial_balances@);
    Ok(ledger)
}

/// Processes the request `msg`, sent by `info.sender`, at the moment
/// `env.now`. On success the ledger moves to the state the request leads to
/// and the events it emitted are returned; on failure the ledger is left
/// exactly as it was.
pub fn execute(ledger: &mut Ledger, env: &Env, info: &MessageInfo, msg: ExecuteMsg) -> (r: Result<
    Response,
    LedgerError,
>)
    requires
        old(ledger).wf(),
    ensures
        final(ledger).wf(),
        match r {
            Ok(response) => old(ledger)@.step(env.now, info.sender@, msg) == Ok::<
                State,
                LedgerError,
            >(final(ledger)@) && response.events@ == events_of(
                old(ledger)@,
                env.now,
                info.sender,
                msg,
            ),
            Err(e) => old(ledger)@.step(env.now, info.sender@, msg) == Err::<State, LedgerError>(e)
                && final(ledger)@ == old(ledger)@,
        },
{
    let caller = &info.sender;
    let now = env.now;
    let events = match msg {
        ExecuteMsg::Transfer { recipient, amount } => ledger.transfer(caller, &recipient, amount),
        ExecuteMsg::TransferFrom { owner, recipient, amount } => ledger.transfer_from(
            caller,
            &owner,
            &recipient,
            amount,
            now,
        ),
        ExecuteMsg::Mint { recipient, amount } => ledger.mint(caller, &recipient, amount),
        ExecuteMsg::Burn { amount } => ledger.burn(caller, amount),
        ExecuteMsg::BurnFrom { owner, amount } => ledger.burn_from(caller, &owner, amount, now),
        ExecuteMsg::Approve { spender, amount, expires } => ledger.approve(
            caller,
            &spender,
            amount,
            expires,
            now,
        ),
        ExecuteMsg::IncreaseAllowance { spender, amount, expires } => ledger.increase_allowance(
            caller,
            &spender,
            amount,
            expires,
            now,
        ),
        ExecuteMsg::DecreaseAllowance { spender, amount, expires } => ledger.decrease_allowance(
            caller,
            &spender,
            amount,
            expires,
            now,
        ),
    };
    match events {
        Ok(events) => Ok(Response { events }),
        Err(e) => Err(e),
    }
}

/// Answers the query `msg` about the ledger as it stands at `env.now`.
/// Queries change nothing and never fail; an account or a grant that is not
/// recorded, and a grant that has lapsed, read as zero.
pub fn query(ledger: &Ledger, env: &Env, msg: QueryMsg) -> (response: QueryResponse)
    requires
        ledger.wf(),
    ensures
        answer(ledger@, env.now, msg, response),
{
    match msg {
        QueryMsg::Balance { address } => QueryResponse::Balance { balance: ledger.balance(&address) },
        QueryMsg::Allowance { owner, spender } => QueryResponse::Allowance {
            allowance: ledger.allowance(&owner, &spender, env.now),
            expires: ledger.allowance_expiration(&owner, &spender, env.now),
        },
        QueryMsg::TotalSupply => QueryResponse::TotalSupply { total_supply: ledger.total_supply() },
        QueryMsg::TokenInfo => QueryResponse::TokenInfo {
            name: ledger.token().name.clone(),
            symbol: ledger.token().symbol.clone(),
            decimals: ledger.token().decimals,
            total_supply: ledger.total_supply(),
        },
        QueryMsg::Minter => QueryResponse::Minter {
            minter: match ledger.minter() {
                Some(minter) => Some(minter.clone()),
                None => None,
            },
            cap: ledger.cap(),
        },
    }
}

} // verus!
