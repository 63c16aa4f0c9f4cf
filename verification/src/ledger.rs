//! The ledger: the three stores under one invariant, and the operations that
//! change them. Every operation validates first and writes afterwards, so a
//! failure leaves the ledger as it was.

use vstd::prelude::*;
use crate::allowances::AllowanceStore;
use crate::balances::BalanceStore;
use crate::error::LedgerError;
use crate::model::{debit, is_valid_expiration};
use crate::msg::{Event, ExecuteMsg, TokenInfo};
use crate::snapshot::{snapshot_state, snapshot_valid, Snapshot};
use crate::state::{account_view, amount_view, events_of, lemma_credit, lemma_debit, State};
use crate::supply::SupplyTracker;
use crate::types::{Account, Amount, Timestamp};

verus! {

/// Whether `slot` holds the account `account`.
fn names(slot: &Option<Account>, account: &Account) -> (same: bool)
    ensures
        same == (account_view(*slot) == Some(account@)),
{
    match slot {
        Some(held) => *held == *account,
        None => false,
    }
}

/// Whether `expires` may be attached to a grant at `now`.
fn valid_expiration(expires: Option<Timestamp>, now: Timestamp) -> (valid: bool)
    ensures
        valid == is_valid_expiration(expires, now),
{
    match expires {
        Some(e) => e > now,
        None => true,
    }
}

/// A list of one event.
fn one_event(event: Event) -> (events: Vec<Event>)
    ensures
        events@ == seq![event],
{
    let mut events: Vec<Event> = Vec::new();
    events.push(event);
    assert(events@ =~= seq![event]);
    events
}

/// A list of two events.
fn two_events(first: Event, second: Event) -> (events: Vec<Event>)
    ensures
        events@ == seq![first, second],
{
    let mut events: Vec<Event> = Vec::new();
    events.push(first);
    events.push(second);
    assert(events@ =~= seq![first, second]);
    events
}

/// A token ledger. It owns its stores; they change only through the
/// operations below.
pub struct Ledger {
    token: TokenInfo,
    minter: Option<Account>,
    cap: Option<Amount>,
    null_account: Option<Account>,
    balances: BalanceStore,
    allowances: AllowanceStore,
    supply: SupplyTracker,
}

impl View for Ledger {
    type V = State;

    closed spec fn view(&self) -> State {
        State {
            token: self.token,
            minter: account_view(self.minter),
            cap: amount_view(self.cap),
            null_account: account_view(self.null_account),
            balances: self.balances@,
            allowances: self.allowances@,
            total_supply: self.supply@,
        }
    }
}

impl Ledger {
    /// The stores are well formed and the state meets the ledger's
    /// invariant.
    pub closed spec fn wf(&self) -> bool {
        &&& self.balances.wf()
        &&& self.allowances.wf()
        &&& self@.wf()
    }

    /// A well-formed ledger stands for a state that meets the invariant.
    pub proof fn lemma_view(&self)
        requires
            self.wf(),
        ensures
            self@.wf(),
    {
    }

    /// A ledger without balances or grants.
    pub fn new(
        token: TokenInfo,
        minter: Option<Account>,
        cap: Option<Amount>,
        null_account: Option<Account>,
    ) -> (ledger: Self)
        ensures
            ledger.wf(),
            ledger@ == (State {
                token,
                minter: account_view(minter),
                cap: amount_view(cap),
                null_account: account_view(null_account),
                balances: Map::empty(),
                allowances: Map::empty(),
                total_supply: 0,
            }),
    {
        Ledger {
            token,
            minter,
            cap,
            null_account,
            balances: BalanceStore::new(),
            allowances: AllowanceStore::new(),
            supply: SupplyTracker::new(0),
        }
    }

    /// The ledger's whole state as plain values, for a host to keep.
    pub fn snapshot(&self) -> (snapshot: Snapshot)
        requires
            self.wf(),
        ensures
            snapshot_valid(snapshot),
            snapshot_state(snapshot) == self@,
    {
        Snapshot {
            token: TokenInfo {
                name: self.token.name.clone(),
                symbol: self.token.symbol.clone(),
                decimals: self.token.decimals,
            },
            minter: match &self.minter {
                Some(minter) => Some(minter.clone()),
                None => None,
            },
            cap: self.cap,
            null_account: match &self.null_account {
                Some(account) => Some(account.clone()),
                None => None,
            },
            balances: self.balances.entries(),
            allowances: self.allowances.entries(),
            total_supply: self.supply.total(),
        }
    }

    /// The ledger a snapshot stands for, where the snapshot is a ledger's;
    /// nothing where it is not, be it that a key is recorded twice, that a
    /// record holds zero, that the supply counter is not the sum of the
    /// balances, or that the supply exceeds the cap.
    pub fn restore(snapshot: Snapshot) -> (r: Option<Ledger>)
        ensures
            r is Some <==> snapshot_valid(snapshot),
            r matches Some(ledger) ==> ledger.wf() && ledger@ == snapshot_state(snapshot),
    {
        let Snapshot { token, minter, cap, null_account, balances, allowances, total_supply } =
            snapshot;
        let balances = match BalanceStore::from_entries(balances) {
            Some(balances) => balances,
            None => {
                return None;
            },
        };
        let allowances = match AllowanceStore::from_entries(allowances) {
            Some(allowances) => allowances,
            None => {
                return None;
            },
        };
        proof {
            balances.lemma_view();
            allowances.lemma_view();
        }
        match balances.sum() {
            Some(sum) => {
                if sum != total_supply {
                    return None;
                }
            },
            None => {
                return None;
            },
        }
        if let Some(limit) = cap {
            if total_supply > limit {
                return None;
            }
        }
        Some(
            Ledger {
                token,
                minter,
                cap,
                null_account,
                balances,
                allowances,
                supply: SupplyTracker::new(total_supply),
            },
        )
    }

    /// The balance of `account`.
    pub fn balance(&self, account: &Account) -> (balance: Amount)
        requires
            self.wf(),
        ensures
            balance == self@.balance(account@),
    {
        self.balances.get(account)
    }

    /// What `spender` may spend of `owner`'s tokens at `now`.
    pub fn allowance(&self, owner: &Account, spender: &Account, now: Timestamp) -> (allowance:
        Amount)
        requires
            self.wf(),
        ensures
            allowance == self@.allowance(owner@, spender@, now),
    {
        self.allowances.get(owner, spender, now)
    }

    /// The expiration of the grant from `owner` to `spender` while that
    /// grant is worth something at `now`.
    pub fn allowance_expiration(&self, owner: &Account, spender: &Account, now: Timestamp) -> (expires:
        Option<Timestamp>)
        requires
            self.wf(),
        ensures
            expires == self@.allowance_expiration(owner@, spender@, now),
    {
        if self.allowances.get(owner, spender, now) > 0 {
            self.allowances.stored(owner, spender).1
        } else {
            None
        }
    }

    /// The number of tokens in circulation.
    pub fn total_supply(&self) -> (total: Amount)
        ensures
            total == self@.total_supply,
    {
        self.supply.total()
    }

    /// The token's metadata.
    pub fn token(&self) -> (token: &TokenInfo)
        ensures
            *token == self@.token,
    {
        &self.token
    }

    /// The account allowed to mint, if any.
    pub fn minter(&self) -> (minter: &Option<Account>)
        ensures
            account_view(*minter) == self@.minter,
    {
        &self.minter
    }

    /// The ceiling of the total supply, if any.
    pub fn cap(&self) -> (cap: Option<Amount>)
        ensures
            amount_view(cap) == self@.cap,
    {
        self.cap
    }

    /// The account no transfer may name as its recipient, if any.
    pub fn null_account(&self) -> (account: &Option<Account>)
        ensures
            account_view(*account) == self@.null_account,
    {
        &self.null_account
    }

    /// Moves `amount` from `caller` to `recipient`.
    ///
    /// Fails with `InvalidZeroAmount` when `amount` is zero, else with
    /// `InvalidRecipient` when `recipient` is the null account, else with
    /// `InsufficientFunds` when `caller` holds less than `amount`.
    pub fn transfer(&mut self, caller: &Account, recipient: &Account, amount: Amount) -> (r: Result<
        Vec<Event>,
        LedgerError,
    >)
        requires
            old(self).wf(),
        ensures
            final(self).wf(),
            match r {
                Ok(events) => old(self)@.transfer(caller@, recipient@, amount as nat) == Ok::<
                    State,
                    LedgerError,
                >(final(self)@) && events@ == seq![
                    Event::Transfer { from: *caller, to: *recipient, amount },
                ],
                Err(e) => old(self)@.transfer(caller@, recipient@, amount as nat) == Err::<
                    State,
                    LedgerError,
                >(e) && final(self)@ == old(self)@,
            },
    {
        if amount == 0 {
            return Err(LedgerError::InvalidZeroAmount);
        }
        if names(&self.null_account, recipient) {
            return Err(LedgerError::InvalidRecipient);
        }
        if amount > self.balances.get(caller) {
            return Err(LedgerError::InsufficientFunds);
        }
        proof {
            self.balances.lemma_view();
            lemma_debit(self.balances@, caller@, amount as nat);
            lemma_credit(debit(self.balances@, caller@, amount as nat), recipient@, amount as nat);
        }
        // Neither write can fail: the debit is covered, and the credit stays
        // within the total supply.
        self.balances.decrease(caller, amount)?;
        self.balances.increase(recipient, amount)?;
        Ok(one_event(Event::Transfer { from: caller.clone(), to: recipient.clone(), amount }))
    }

    /// Moves `amount` from `owner` to `recipient` on behalf of `caller`, and
    /// takes `amount` off the allowance `owner` granted `caller`.
    ///
    /// Fails with `InvalidZeroAmount` when `amount` is zero, else with
    /// `InsufficientAllowance` when the live allowance at `now` is smaller
    /// than `amount`, else with `InsufficientFunds` when `owner` holds less
    /// than `amount`.
    pub fn transfer_from(
        &mut self,
        caller: &Account,
        owner: &Account,
        recipient: &Account,
        amount: Amount,
        now: Timestamp,
    ) -> (r: Result<Vec<Event>, LedgerError>)
        requires
            old(self).wf(),
        ensures
            final(self).wf(),
            match r {
                Ok(events) => old(self)@.transfer_from(
                    caller@,
                    owner@,
                    recipient@,
                    amount as nat,
                    now,
                ) == Ok::<State, LedgerError>(final(self)@) && events@ == seq![
                    Event::Spend { owner: *owner, spender: *caller, amount },
                    Event::Transfer { from: *owner, to: *recipient, amount },
                ] && final(self)@.allowance(owner@, caller@, now) == old(self)@.allowance(
                    owner@,
                    caller@,
                    now,
                ) - amount,
                Err(e) => old(self)@.transfer_from(
                    caller@,
                    owner@,
                    recipient@,
                    amount as nat,
                    now,
                ) == Err::<State, LedgerError>(e) && final(self)@ == old(self)@,
            },
    {
        if amount == 0 {
            return Err(LedgerError::InvalidZeroAmount);
        }
        if amount > self.allowances.get(owner, caller, now) {
            return Err(LedgerError::InsufficientAllowance);
        }
        if amount > self.balances.get(owner) {
            return Err(LedgerError::InsufficientFunds);
        }
        proof {
            self.balances.lemma_view();
            self.allowances.lemma_view();
            lemma_debit(self.balances@, owner@, amount as nat);
            lemma_credit(debit(self.balances@, owner@, amount as nat), recipient@, amount as nat);
        }
        // None of the writes can fail: all three were checked above.
        self.allowances.consume(owner, caller, amount, now)?;
        self.balances.decrease(owner, amount)?;
        self.balances.increase(recipient, amount)?;
        proof {
            self.allowances.lemma_view();
        }
        Ok(
            two_events(
                Event::Spend { owner: owner.clone(), spender: caller.clone(), amount },
                Event::Transfer { from: owner.clone(), to: recipient.clone(), amount },
            ),
        )
    }

    /// Brings `amount` new tokens into being in the balance of `recipient`.
    ///
    /// Fails with `Overflow` when the new total supply would not fit in an
    /// amount, else with `SupplyCapExceeded` when it would exceed the
    /// configured cap.
    pub(crate) fn issue(&mut self, recipient: &Account, amount: Amount) -> (r: Result<
        (),
        LedgerError,
    >)
        requires
            old(self).wf(),
        ensures
            final(self).wf(),
            match r {
                Ok(()) => old(self)@.issue(recipient@, amount as nat) == Ok::<State, LedgerError>(
                    final(self)@,
                ),
                Err(e) => old(self)@.issue(recipient@, amount as nat) == Err::<State, LedgerError>(
                    e,
                ) && final(self)@ == old(self)@,
            },
    {
        let raised: Amount = crate::amount::add(self.supply.total(), amount)?;
        if let Some(cap) = self.cap {
            if raised > cap {
                return Err(LedgerError::SupplyCapExceeded);
            }
        }
        proof {
            self.balances.lemma_view();
            lemma_credit(self.balances@, recipient@, amount as nat);
        }
        // Neither write can fail: the new supply fits, and no balance
        // exceeds the supply.
        self.supply.mint_supply(amount)?;
        self.balances.increase(recipient, amount)?;
        Ok(())
    }

    /// Creates `amount` new tokens for `recipient`.
    ///
    /// Fails with `Unauthorized` when `caller` is not the minter, else with
    /// `InvalidZeroAmount` when `amount` is zero, else with `Overflow` when
    /// the new total supply would not fit in an amount, else with
    /// `SupplyCapExceeded` when it would exceed the configured cap.
    pub fn mint(&mut self, caller: &Account, recipient: &Account, amount: Amount) -> (r: Result<
        Vec<Event>,
        LedgerError,
    >)
        requires
            old(self).wf(),
        ensures
            final(self).wf(),
            match r {
                Ok(events) => old(self)@.mint(caller@, recipient@, amount as nat) == Ok::<
                    State,
                    LedgerError,
                >(final(self)@) && events@ == seq![Event::Mint { to: *recipient, amount }],
                Err(e) => old(self)@.mint(caller@, recipient@, amount as nat) == Err::<
                    State,
                    LedgerError,
                >(e) && final(self)@ == old(self)@,
            },
    {
        if !names(&self.minter, caller) {
            return Err(LedgerError::Unauthorized);
        }
        if amount == 0 {
            return Err(LedgerError::InvalidZeroAmount);
        }
        self.issue(recipient, amount)?;
        Ok(one_event(Event::Mint { to: recipient.clone(), amount }))
    }

    /// Destroys `amount` of `caller`'s tokens.
    ///
    /// Fails with `InvalidZeroAmount` when `amount` is zero, else with
    /// `InsufficientFunds` when `caller` holds less than `amount`. The
    /// supply is checked as well; under the ledger's invariant that check
    /// never fails.
    pub fn burn(&mut self, caller: &Account, amount: Amount) -> (r: Result<Vec<Event>, LedgerError>)
        requires
            old(self).wf(),
        ensures
            final(self).wf(),
            match r {
                Ok(events) => old(self)@.burn(caller@, amount as nat) == Ok::<State, LedgerError>(
                    final(self)@,
                ) && events@ == seq![Event::Burn { from: *caller, amount }],
                Err(e) => old(self)@.burn(caller@, amount as nat) == Err::<State, LedgerError>(e)
                    && final(self)@ == old(self)@,
            },
    {
        if amount == 0 {
            return Err(LedgerError::InvalidZeroAmount);
        }
        if amount > self.balances.get(caller) {
            return Err(LedgerError::InsufficientFunds);
        }
        if amount > self.supply.total() {
            return Err(LedgerError::Underflow);
        }
        proof {
            self.balances.lemma_view();
            lemma_debit(self.balances@, caller@, amount as nat);
        }
        // Neither write can fail: both were checked above.
        self.supply.burn_supply(amount)?;
        self.balances.decrease(caller, amount)?;
        Ok(one_event(Event::Burn { from: caller.clone(), amount }))
    }

    /// Destroys `amount` of `owner`'s tokens on behalf of `caller`, and takes
    /// `amount` off the allowance `owner` granted `caller`.
    ///
    /// Fails with `InsufficientAllowance` when the live allowance at `now` is
    /// smaller than `amount`, else with `InsufficientFunds` when `owner`
    /// holds less than `amount`. The supply is checked as well; under the
    /// ledger's invariant that check never fails.
    pub fn burn_from(&mut self, caller: &Account, owner: &Account, amount: Amount, now: Timestamp) -> (r:
        Result<Vec<Event>, LedgerError>)
        requires
            old(self).wf(),
        ensures
            final(self).wf(),
            match r {
                Ok(events) => old(self)@.burn_from(caller@, owner@, amount as nat, now) == Ok::<
                    State,
                    LedgerError,
                >(final(self)@) && events@ == seq![
                    Event::Spend { owner: *owner, spender: *caller, amount },
                    Event::Burn { from: *owner, amount },
                ],
                Err(e) => old(self)@.burn_from(caller@, owner@, amount as nat, now) == Err::<
                    State,
                    LedgerError,
                >(e) && final(self)@ == old(self)@,
            },
    {
        if amount > self.allowances.get(owner, caller, now) {
            return Err(LedgerError::InsufficientAllowance);
        }
        if amount > self.balances.get(owner) {
            return Err(LedgerError::InsufficientFunds);
        }
        if amount > self.supply.total() {
            return Err(LedgerError::Underflow);
        }
        proof {
            self.balances.lemma_view();
            self.allowances.lemma_view();
            lemma_debit(self.balances@, owner@, amount as nat);
        }
        // None of the writes can fail: all three were checked above.
        self.allowances.consume(owner, caller, amount, now)?;
        self.supply.burn_supply(amount)?;
        self.balances.decrease(owner, amount)?;
        proof {
            self.allowances.lemma_view();
        }
        Ok(
            two_events(
                Event::Spend { owner: owner.clone(), spender: caller.clone(), amount },
                Event::Burn { from: owner.clone(), amount },
            ),
        )
    }

    /// Sets what `spender` may spend of `caller`'s tokens to `amount`,
    /// whatever it was; an amount of zero withdraws the grant.
    ///
    /// Fails with `InvalidExpiration` when `expires` is given and does not
    /// lie after `now`.
    pub fn approve(
        &mut self,
        caller: &Account,
        spender: &Account,
        amount: Amount,
        expires: Option<Timestamp>,
        now: Timestamp,
    ) -> (r: Result<Vec<Event>, LedgerError>)
        requires
            old(self).wf(),
        ensures
            final(self).wf(),
            match r {
                Ok(events) => old(self)@.approve(caller@, spender@, amount as nat, expires, now)
                    == Ok::<State, LedgerError>(final(self)@) && events@ == seq![
                    Event::Approval { owner: *caller, spender: *spender, allowance: amount, expires },
                ],
                Err(e) => old(self)@.approve(caller@, spender@, amount as nat, expires, now)
                    == Err::<State, LedgerError>(e) && final(self)@ == old(self)@,
            },
    {
        if !valid_expiration(expires, now) {
            return Err(LedgerError::InvalidExpiration);
        }
        self.allowances.set(caller, spender, amount, expires);
        proof {
            self.allowances.lemma_view();
        }
        Ok(
            one_event(
                Event::Approval {
                    owner: caller.clone(),
                    spender: spender.clone(),
                    allowance: amount,
                    expires,
                },
            ),
        )
    }

    /// Raises the amount recorded for `spender` on `caller`'s tokens by
    /// `amount`. Where `expires` is given it replaces the recorded
    /// expiration; otherwise that one is kept.
    ///
    /// Fails with `InvalidExpiration` when `expires` is given and does not
    /// lie after `now`, else with `Overflow` when the new amount would not
    /// fit.
    pub fn increase_allowance(
        &mut self,
        caller: &Account,
        spender: &Account,
        amount: Amount,
        expires: Option<Timestamp>,
        now: Timestamp,
    ) -> (r: Result<Vec<Event>, LedgerError>)
        requires
            old(self).wf(),
        ensures
            final(self).wf(),
            match r {
                Ok(events) => old(self)@.increase_allowance(
                    caller@,
                    spender@,
                    amount as nat,
                    expires,
                    now,
                ) == Ok::<State, LedgerError>(final(self)@) && events@ == events_of(
                    old(self)@,
                    now,
                    *caller,
                    ExecuteMsg::IncreaseAllowance { spender: *spender, amount, expires },
                ),
                Err(e) => old(self)@.increase_allowance(
                    caller@,
                    spender@,
                    amount as nat,
                    expires,
                    now,
                ) == Err::<State, LedgerError>(e) && final(self)@ == old(self)@,
            },
    {
        if !valid_expiration(expires, now) {
            return Err(LedgerError::InvalidExpiration);
        }
        let recorded = self.allowances.stored(caller, spender).1;
        let allowance: Amount = self.allowances.increase(caller, spender, amount, expires)?;
        proof {
            self.allowances.lemma_view();
        }
        let kept = match expires {
            Some(e) => Some(e),
            None => recorded,
        };
        Ok(
            one_event(
                Event::Approval {
                    owner: caller.clone(),
                    spender: spender.clone(),
                    allowance,
                    expires: kept,
                },
            ),
        )
    }

    /// Lowers what `spender` may spend of `caller`'s tokens at `now` by
    /// `amount`, withdrawing the grant when nothing is left. The expiration
    /// follows the rule of [`Ledger::increase_allowance`].
    ///
    /// Fails with `InvalidExpiration` when `expires` is given and does not
    /// lie after `now`, else with `InsufficientAllowance` when the live
    /// allowance is smaller than `amount`.
    pub fn decrease_allowance(
        &mut self,
        caller: &Account,
        spender: &Account,
        amount: Amount,
        expires: Option<Timestamp>,
        now: Timestamp,
    ) -> (r: Result<Vec<Event>, LedgerError>)
        requires
            old(self).wf(),
        ensures
            final(self).wf(),
            match r {
                Ok(events) => old(self)@.decrease_allowance(
                    caller@,
                    spender@,
                    amount as nat,
                    expires,
                    now,
                ) == Ok::<State, LedgerError>(final(self)@) && events@ == events_of(
                    old(self)@,
                    now,
                    *caller,
                    ExecuteMsg::DecreaseAllowance { spender: *spender, amount, expires },
                ),
                Err(e) => old(self)@.decrease_allowance(
                    caller@,
                    spender@,
                    amount as nat,
                    expires,
                    now,
                ) == Err::<State, LedgerError>(e) && final(self)@ == old(self)@,
            },
    {
        if !valid_expiration(expires, now) {
            return Err(LedgerError::InvalidExpiration);
        }
        let recorded = self.allowances.stored(caller, spender).1;
        let allowance: Amount = self.allowances.decrease(caller, spender, amount, expires, now)?;
        proof {
            self.allowances.lemma_view();
        }
        let kept = match expires {
            Some(e) => Some(e),
            None => recorded,
        };
        Ok(
            one_event(
                Event::Approval {
                    owner: caller.clone(),
                    spender: spender.clone(),
                    allowance,
                    expires: kept,
                },
            ),
        )
    }
}

} // verus!
