//! The ledger as a state machine: its abstract state, and for each operation
//! the state it leads to or the failure it ends in.

use vstd::prelude::*;
use crate::error::LedgerError;
use crate::model::{
    balance_of, balances_wf, credit, debit, grant_decreased, grant_increased, grants_wf,
    is_valid_expiration, lemma_balance_within_total, lemma_with_balance, live_allowance,
    next_expiration, stored_allowance, stored_expiration, with_grant, Balances, Grants,
};
use crate::balances::BalanceEntry;
use crate::msg::{Event, ExecuteMsg, InstantiateMsg, TokenInfo};
use crate::sum::total;
use crate::types::{Account, Amount, Timestamp, MAX_AMOUNT};

verus! {

/// The identifier an optional account stands for.
pub open spec fn account_view(account: Option<Account>) -> Option<Seq<char>> {
    match account {
        Some(a) => Some(a@),
        None => None,
    }
}

/// The quantity an optional amount stands for.
pub open spec fn amount_view(amount: Option<Amount>) -> Option<nat> {
    match amount {
        Some(a) => Some(a as nat),
        None => None,
    }
}

/// Everything the ledger persists.
pub struct State {
    /// The token's metadata.
    pub token: TokenInfo,
    /// The one account allowed to mint, if any.
    pub minter: Option<Seq<char>>,
    /// The ceiling of the total supply, if any.
    pub cap: Option<nat>,
    /// The account no transfer may name as its recipient, if any.
    pub null_account: Option<Seq<char>>,
    /// The balance of every account that holds tokens.
    pub balances: Balances,
    /// Every grant of a positive amount.
    pub allowances: Grants,
    /// The number of tokens in circulation.
    pub total_supply: nat,
}

impl State {
    /// The invariant of the ledger: the stores are well formed, the total
    /// supply is the sum of all balances and fits in an amount, and a
    /// configured cap is respected.
    pub open spec fn wf(self) -> bool {
        &&& balances_wf(self.balances)
        &&& grants_wf(self.allowances)
        &&& self.total_supply == total(self.balances)
        &&& self.total_supply <= MAX_AMOUNT
        &&& self.cap matches Some(c) ==> self.total_supply <= c
    }

    /// The balance of `account`.
    pub open spec fn balance(self, account: Seq<char>) -> nat {
        balance_of(self.balances, account)
    }

    /// What `spender` may spend of `owner`'s tokens at `now`.
    pub open spec fn allowance(self, owner: Seq<char>, spender: Seq<char>, now: Timestamp) -> nat {
        live_allowance(self.allowances, owner, spender, now)
    }

    /// The expiration of the grant from `owner` to `spender` while that
    /// grant is worth something at `now`; none otherwise.
    pub open spec fn allowance_expiration(
        self,
        owner: Seq<char>,
        spender: Seq<char>,
        now: Timestamp,
    ) -> Option<Timestamp> {
        if self.allowance(owner, spender, now) > 0 {
            stored_expiration(self.allowances, owner, spender)
        } else {
            None
        }
    }

    /// `caller` moves `amount` to `recipient`.
    pub open spec fn transfer(self, caller: Seq<char>, recipient: Seq<char>, amount: nat) -> Result<
        State,
        LedgerError,
    > {
        if amount == 0 {
            Err(LedgerError::InvalidZeroAmount)
        } else if self.null_account == Some(recipient) {
            Err(LedgerError::InvalidRecipient)
        } else if amount > self.balance(caller) {
            Err(LedgerError::InsufficientFunds)
        } else {
            Ok(
                State {
                    balances: credit(debit(self.balances, caller, amount), recipient, amount),
                    ..self
                },
            )
        }
    }

    /// `caller` moves `amount` from `owner` to `recipient`, spending the
    /// allowance `owner` granted it.
    pub open spec fn transfer_from(
        self,
        caller: Seq<char>,
        owner: Seq<char>,
        recipient: Seq<char>,
        amount: nat,
        now: Timestamp,
    ) -> Result<State, LedgerError> {
        if amount == 0 {
            Err(LedgerError::InvalidZeroAmount)
        } else if amount > self.allowance(owner, caller, now) {
            Err(LedgerError::InsufficientAllowance)
        } else if amount > self.balance(owner) {
            Err(LedgerError::InsufficientFunds)
        } else {
            Ok(
                State {
                    allowances: grant_decreased(self.allowances, owner, caller, amount, None, now),
                    balances: credit(debit(self.balances, owner, amount), recipient, amount),
                    ..self
                },
            )
        }
    }

    /// `amount` new tokens come into being in the balance of `recipient`.
    pub open spec fn issue(self, recipient: Seq<char>, amount: nat) -> Result<State, LedgerError> {
        if self.total_supply + amount > MAX_AMOUNT {
            Err(LedgerError::Overflow)
        } else if self.cap matches Some(c) && self.total_supply + amount > c {
            Err(LedgerError::SupplyCapExceeded)
        } else {
            Ok(
                State {
                    balances: credit(self.balances, recipient, amount),
                    total_supply: self.total_supply + amount,
                    ..self
                },
            )
        }
    }

    /// `caller`, the minter, creates `amount` tokens for `recipient`.
    pub open spec fn mint(self, caller: Seq<char>, recipient: Seq<char>, amount: nat) -> Result<
        State,
        LedgerError,
    > {
        if self.minter != Some(caller) {
            Err(LedgerError::Unauthorized)
        } else if amount == 0 {
            Err(LedgerError::InvalidZeroAmount)
        } else {
            self.issue(recipient, amount)
        }
    }

    /// This state after each of `entries` was issued in turn, or the failure
    /// of the first one that cannot be.
    pub open spec fn issue_all(self, entries: Seq<BalanceEntry>) -> Result<State, LedgerError>
        decreases entries.len(),
    {
        if entries.len() == 0 {
            Ok(self)
        } else {
            match self.issue_all(entries.drop_last()) {
                Ok(so_far) => so_far.issue(entries.last().account@, entries.last().amount as nat),
                Err(e) => Err(e),
            }
        }
    }

    /// `caller` destroys `amount` of its own tokens.
    pub open spec fn burn(self, caller: Seq<char>, amount: nat) -> Result<State, LedgerError> {
        if amount == 0 {
            Err(LedgerError::InvalidZeroAmount)
        } else if amount > self.balance(caller) {
            Err(LedgerError::InsufficientFunds)
        } else if amount > self.total_supply {
            Err(LedgerError::Underflow)
        } else {
            Ok(
                State {
                    balances: debit(self.balances, caller, amount),
                    total_supply: (self.total_supply - amount) as nat,
                    ..self
                },
            )
        }
    }

    /// `caller` destroys `amount` of `owner`'s tokens, spending the allowance
    /// `owner` granted it.
    pub open spec fn burn_from(
        self,
        caller: Seq<char>,
        owner: Seq<char>,
        amount: nat,
        now: Timestamp,
    ) -> Result<State, LedgerError> {
        if amount > self.allowance(owner, caller, now) {
            Err(LedgerError::InsufficientAllowance)
        } else if amount > self.balance(owner) {
            Err(LedgerError::InsufficientFunds)
        } else if amount > self.total_supply {
            Err(LedgerError::Underflow)
        } else {
            Ok(
                State {
                    allowances: grant_decreased(self.allowances, owner, caller, amount, None, now),
                    balances: debit(self.balances, owner, amount),
                    total_supply: (self.total_supply - amount) as nat,
                    ..self
                },
            )
        }
    }

    /// `caller` sets what `spender` may spend of its tokens.
    pub open spec fn approve(
        self,
        caller: Seq<char>,
        spender: Seq<char>,
        amount: nat,
        expires: Option<Timestamp>,
        now: Timestamp,
    ) -> Result<State, LedgerError> {
        if !is_valid_expiration(expires, now) {
            Err(LedgerError::InvalidExpiration)
        } else {
            Ok(State { allowances: with_grant(self.allowances, caller, spender, amount, expires), ..self })
        }
    }

    /// `caller` raises what `spender` may spend of its tokens by `amount`.
    pub open spec fn increase_allowance(
        self,
        caller: Seq<char>,
        spender: Seq<char>,
        amount: nat,
        expires: Option<Timestamp>,
        now: Timestamp,
    ) -> Result<State, LedgerError> {
        if !is_valid_expiration(expires, now) {
            Err(LedgerError::InvalidExpiration)
        } else if stored_allowance(self.allowances, caller, spender) + amount > MAX_AMOUNT {
            Err(LedgerError::Overflow)
        } else {
            Ok(
                State {
                    allowances: grant_increased(self.allowances, caller, spender, amount, expires),
                    ..self
                },
            )
        }
    }

    /// `caller` lowers what `spender` may spend of its tokens by `amount`.
    pub open spec fn decrease_allowance(
        self,
        caller: Seq<char>,
        spender: Seq<char>,
        amount: nat,
        expires: Option<Timestamp>,
        now: Timestamp,
    ) -> Result<State, LedgerError> {
        if !is_valid_expiration(expires, now) {
            Err(LedgerError::InvalidExpiration)
        } else if amount > self.allowance(caller, spender, now) {
            Err(LedgerError::InsufficientAllowance)
        } else {
            Ok(
                State {
                    allowances: grant_decreased(
                        self.allowances,
                        caller,
                        spender,
                        amount,
                        expires,
                        now,
                    ),
                    ..self
                },
            )
        }
    }

    /// The outcome of the request `msg`, sent by `caller` and processed at
    /// `now`.
    pub open spec fn step(self, now: Timestamp, caller: Seq<char>, msg: ExecuteMsg) -> Result<
        State,
        LedgerError,
    > {
        match msg {
            ExecuteMsg::Transfer { recipient, amount } => self.transfer(
                caller,
                recipient@,
                amount as nat,
            ),
            ExecuteMsg::TransferFrom { owner, recipient, amount } => self.transfer_from(
                caller,
                owner@,
                recipient@,
                amount as nat,
                now,
            ),
            ExecuteMsg::Mint { recipient, amount } => self.mint(caller, recipient@, amount as nat),
            ExecuteMsg::Burn { amount } => self.burn(caller, amount as nat),
            ExecuteMsg::BurnFrom { owner, amount } => self.burn_from(
                caller,
                owner@,
                amount as nat,
                now,
            ),
            ExecuteMsg::Approve { spender, amount, expires } => self.approve(
                caller,
                spender@,
                amount as nat,
                expires,
                now,
            ),
            ExecuteMsg::IncreaseAllowance { spender, amount, expires } => self.increase_allowance(
                caller,
                spender@,
                amount as nat,
                expires,
                now,
            ),
            ExecuteMsg::DecreaseAllowance { spender, amount, expires } => self.decrease_allowance(
                caller,
                spender@,
                amount as nat,
                expires,
                now,
            ),
        }
    }

    /// The state after the request: the one it leads to, or this one
    /// unchanged where the request fails.
    pub open spec fn after(self, now: Timestamp, caller: Seq<char>, msg: ExecuteMsg) -> State {
        match self.step(now, caller, msg) {
            Ok(next) => next,
            Err(_) => self,
        }
    }
}

/// The state of a ledger that was configured by `msg` and holds nothing yet.
pub open spec fn blank(msg: InstantiateMsg) -> State {
    State {
        token: TokenInfo { name: msg.name, symbol: msg.symbol, decimals: msg.decimals },
        minter: account_view(msg.minter),
        cap: amount_view(msg.cap),
        null_account: account_view(msg.null_account),
        balances: Map::empty(),
        allowances: Map::empty(),
        total_supply: 0,
    }
}

/// The state a ledger created by `msg` starts in: blank, then each initial
/// balance issued in turn. Creation fails where one of them cannot be issued.
pub open spec fn genesis(msg: InstantiateMsg) -> Result<State, LedgerError> {
    blank(msg).issue_all(msg.initial_balances@)
}

/// The events a request emits when it succeeds in the state `s`.
pub open spec fn events_of(s: State, now: Timestamp, caller: Account, msg: ExecuteMsg) -> Seq<
    Event,
> {
    match msg {
        ExecuteMsg::Transfer { recipient, amount } => seq![
            Event::Transfer { from: caller, to: recipient, amount },
        ],
        ExecuteMsg::TransferFrom { owner, recipient, amount } => seq![
            Event::Spend { owner, spender: caller, amount },
            Event::Transfer { from: owner, to: recipient, amount },
        ],
        ExecuteMsg::Mint { recipient, amount } => seq![Event::Mint { to: recipient, amount }],
        ExecuteMsg::Burn { amount } => seq![Event::Burn { from: caller, amount }],
        ExecuteMsg::BurnFrom { owner, amount } => seq![
            Event::Spend { owner, spender: caller, amount },
            Event::Burn { from: owner, amount },
        ],
        ExecuteMsg::Approve { spender, amount, expires } => seq![
            Event::Approval { owner: caller, spender, allowance: amount, expires },
        ],
        ExecuteMsg::IncreaseAllowance { spender, amount, expires } => seq![
            Event::Approval {
                owner: caller,
                spender,
                allowance: (stored_allowance(s.allowances, caller@, spender@) + amount) as Amount,
                expires: next_expiration(s.allowances, caller@, spender@, expires),
            },
        ],
        ExecuteMsg::DecreaseAllowance { spender, amount, expires } => seq![
            Event::Approval {
                owner: caller,
                spender,
                allowance: (live_allowance(s.allowances, caller@, spender@, now) - amount) as Amount,
                expires: next_expiration(s.allowances, caller@, spender@, expires),
            },
        ],
    }
}

/// Adding to a balance keeps the records well formed and raises the total by
/// as much.
pub proof fn lemma_credit(balances: Balances, account: Seq<char>, amount: nat)
    requires
        balances_wf(balances),
    ensures
        balances_wf(credit(balances, account, amount)),
        total(credit(balances, account, amount)) == total(balances) + amount,
        balance_of(balances, account) <= total(balances),
{
    lemma_with_balance(balances, account, balance_of(balances, account) + amount);
    lemma_balance_within_total(balances, account);
}

/// Taking from a balance that covers it keeps the records well formed and
/// lowers the total by as much.
pub proof fn lemma_debit(balances: Balances, account: Seq<char>, amount: nat)
    requires
        balances_wf(balances),
        amount <= balance_of(balances, account),
    ensures
        balances_wf(debit(balances, account, amount)),
        total(debit(balances, account, amount)) == total(balances) - amount,
        amount <= total(balances),
{
    lemma_with_balance(balances, account, (balance_of(balances, account) - amount) as nat);
    lemma_balance_within_total(balances, account);
}

/// Issuing into a state that meets the invariant leads to one that meets it.
pub proof fn lemma_issue(s: State, recipient: Seq<char>, amount: nat)
    requires
        s.wf(),
    ensures
        s.issue(recipient, amount) matches Ok(next) ==> next.wf(),
{
    lemma_credit(s.balances, recipient, amount);
}

/// Once issuing a list has failed, issuing a longer list fails the same way.
pub proof fn lemma_issue_all_fails(s: State, entries: Seq<BalanceEntry>, k: int)
    requires
        0 <= k <= entries.len(),
        s.issue_all(entries.take(k)) is Err,
    ensures
        s.issue_all(entries) == s.issue_all(entries.take(k)),
    decreases entries.len(),
{
    if k < entries.len() {
        assert(entries.drop_last().take(k) =~= entries.take(k));
        lemma_issue_all_fails(s, entries.drop_last(), k);
    } else {
        assert(entries.take(k) =~= entries);
    }
}

/// Issuing a list into a state that meets the invariant leads to one that
/// meets it.
pub proof fn lemma_issue_all(s: State, entries: Seq<BalanceEntry>)
    requires
        s.wf(),
    ensures
        s.issue_all(entries) matches Ok(next) ==> next.wf(),
    decreases entries.len(),
{
    if entries.len() > 0 {
        lemma_issue_all(s, entries.drop_last());
        if let Ok(so_far) = s.issue_all(entries.drop_last()) {
            lemma_issue(so_far, entries.last().account@, entries.last().amount as nat);
        }
    }
}

/// The heart of conservation: a request that succeeds in a state that meets
/// the invariant leads to a state that meets it too.
pub proof fn lemma_step_preserves_wf(s: State, now: Timestamp, caller: Seq<char>, msg: ExecuteMsg)
    requires
        s.wf(),
    ensures
        s.after(now, caller, msg).wf(),
{
    if let Ok(next) = s.step(now, caller, msg) {
        match msg {
            ExecuteMsg::Transfer { recipient, amount } => {
                lemma_debit(s.balances, caller, amount as nat);
                lemma_credit(debit(s.balances, caller, amount as nat), recipient@, amount as nat);
            },
            ExecuteMsg::TransferFrom { owner, recipient, amount } => {
                lemma_debit(s.balances, owner@, amount as nat);
                lemma_credit(debit(s.balances, owner@, amount as nat), recipient@, amount as nat);
            },
            ExecuteMsg::Mint { recipient, amount } => {
                lemma_credit(s.balances, recipient@, amount as nat);
            },
            ExecuteMsg::Burn { amount } => {
                lemma_debit(s.balances, caller, amount as nat);
            },
            ExecuteMsg::BurnFrom { owner, amount } => {
                lemma_debit(s.balances, owner@, amount as nat);
            },
            ExecuteMsg::Approve { spender, amount, expires } => {},
            ExecuteMsg::IncreaseAllowance { spender, amount, expires } => {},
            ExecuteMsg::DecreaseAllowance { spender, amount, expires } => {},
        }
    }
}

} // verus!
