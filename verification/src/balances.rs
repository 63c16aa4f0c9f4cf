//! The balance store: one record per account that holds a positive balance.

use vstd::prelude::*;
use crate::assoc::{
    as_map, distinct_keys, has_key, lemma_as_map, lemma_as_map_push, lemma_as_map_remove,
    lemma_as_map_update,
};
use crate::error::LedgerError;
use crate::model::{balance_of, balances_wf, credit, debit, with_balance, Balances};
use crate::sum::{
    lemma_distinct_prefix, lemma_total_empty, lemma_total_last, lemma_total_prefix, total,
};
use crate::types::{Account, Amount, MAX_AMOUNT};

verus! {

/// One record of the balance store.
#[derive(Clone, Debug, PartialEq, Eq)]
pub struct BalanceEntry {
    pub account: Account,
    pub amount: Amount,
}

/// The key and value a record stands for.
pub open spec fn balance_pair(entry: BalanceEntry) -> (Seq<char>, nat) {
    (entry.account@, entry.amount as nat)
}

/// The keys and values a list of records stands for.
pub open spec fn balance_pairs(entries: Seq<BalanceEntry>) -> Seq<(Seq<char>, nat)> {
    entries.map_values(|e: BalanceEntry| balance_pair(e))
}

/// A list of records that can be a store's: no account occurs twice and no
/// record holds zero.
pub open spec fn balance_entries_valid(entries: Seq<BalanceEntry>) -> bool {
    &&& distinct_keys(balance_pairs(entries))
    &&& forall|i: int| 0 <= i < entries.len() ==> (#[trigger] entries[i]).amount > 0
}

/// Balances by account. Absence of a record and a balance of zero are the
/// same thing; the store never keeps a record of zero.
pub struct BalanceStore {
    entries: Vec<BalanceEntry>,
}

impl View for BalanceStore {
    type V = Balances;

    closed spec fn view(&self) -> Balances {
        as_map(self.pairs())
    }
}

impl BalanceStore {
    /// The records as key-value pairs, in the order they were created.
    spec fn pairs(&self) -> Seq<(Seq<char>, nat)> {
        balance_pairs(self.entries@)
    }

    /// No account has two records and no record holds zero.
    pub closed spec fn wf(&self) -> bool {
        balance_entries_valid(self.entries@)
    }

    /// A well-formed store stands for well-formed balances, each of which
    /// fits in an amount.
    pub proof fn lemma_view(&self)
        requires
            self.wf(),
        ensures
            balances_wf(self@),
            forall|a: Seq<char>| balance_of(self@, a) <= MAX_AMOUNT,
    {
        let pairs = self.pairs();
        lemma_as_map(pairs);
        assert forall|a: Seq<char>| self@.contains_key(a) implies 0 < #[trigger] self@[a]
            <= MAX_AMOUNT by {
            let i = choose|i: int| 0 <= i < pairs.len() && (#[trigger] pairs[i]).0 == a;
            assert(pairs[i] == balance_pair(self.entries[i]));
            assert(self@[pairs[i].0] == pairs[i].1);
        }
    }

    /// A store without records: every account holds zero.
    pub fn new() -> (store: Self)
        ensures
            store.wf(),
            store@ == Map::<Seq<char>, nat>::empty(),
    {
        let store = BalanceStore { entries: Vec::new() };
        assert(store.pairs() =~= Seq::empty());
        store
    }

    /// A copy of the records, in the order they were created.
    pub fn entries(&self) -> (entries: Vec<BalanceEntry>)
        requires
            self.wf(),
        ensures
            balance_entries_valid(entries@),
            as_map(balance_pairs(entries@)) == self@,
    {
        let mut entries: Vec<BalanceEntry> = Vec::new();
        let mut i: usize = 0;
        while i < self.entries.len()
            invariant
                i <= self.entries.len(),
                entries@ == self.entries@.take(i as int),
            decreases self.entries.len() - i,
        {
            entries.push(
                BalanceEntry {
                    account: self.entries[i].account.clone(),
                    amount: self.entries[i].amount,
                },
            );
            assert(entries@ =~= self.entries@.take(i as int + 1));
            i += 1;
        }
        assert(entries@ =~= self.entries@);
        entries
    }

    /// The store that holds exactly `entries`, where they can be a store's:
    /// where no account occurs twice and no record holds zero.
    pub fn from_entries(entries: Vec<BalanceEntry>) -> (r: Option<BalanceStore>)
        ensures
            r is Some <==> balance_entries_valid(entries@),
            r matches Some(store) ==> store.wf() && store@ == as_map(balance_pairs(entries@)),
    {
        let ghost pairs = balance_pairs(entries@);
        let mut i: usize = 0;
        while i < entries.len()
            invariant
                i <= entries.len(),
                pairs == balance_pairs(entries@),
                forall|a: int, b: int| 0 <= a < b < i ==> (#[trigger] pairs[a]).0 != (
                #[trigger] pairs[b]).0,
                forall|a: int| 0 <= a < i ==> (#[trigger] entries[a]).amount > 0,
            decreases entries.len() - i,
        {
            if entries[i].amount == 0 {
                return None;
            }
            let mut j: usize = 0;
            while j < i
                invariant
                    j <= i < entries.len(),
                    pairs == balance_pairs(entries@),
                    forall|a: int| 0 <= a < j ==> (#[trigger] pairs[a]).0 != pairs[i as int].0,
                decreases i - j,
            {
                if entries[j].account == entries[i].account {
                    assert(pairs[j as int].0 == pairs[i as int].0);
                    return None;
                }
                j += 1;
            }
            i += 1;
        }
        Some(BalanceStore { entries })
    }

    /// The sum of all balances, or nothing where it does not fit in an
    /// amount.
    pub fn sum(&self) -> (r: Option<Amount>)
        requires
            self.wf(),
        ensures
            match r {
                Some(sum) => sum == total(self@),
                None => total(self@) > MAX_AMOUNT,
            },
    {
        let ghost pairs = self.pairs();
        let mut sum: Amount = 0;
        let mut i: usize = 0;
        proof {
            lemma_total_empty::<Seq<char>>();
            assert(pairs.take(0) =~= Seq::empty());
        }
        while i < self.entries.len()
            invariant
                i <= self.entries.len(),
                pairs == self.pairs(),
                distinct_keys(pairs),
                sum == total(as_map(pairs.take(i as int))),
            decreases self.entries.len() - i,
        {
            proof {
                lemma_distinct_prefix(pairs, i as int + 1);
                lemma_total_last(pairs.take(i as int + 1));
                assert(pairs.take(i as int + 1).drop_last() =~= pairs.take(i as int));
                lemma_total_prefix(pairs, i as int + 1);
            }
            match crate::amount::add(sum, self.entries[i].amount) {
                Ok(next) => {
                    sum = next;
                },
                Err(_) => {
                    return None;
                },
            }
            i += 1;
        }
        assert(pairs.take(i as int) =~= pairs);
        Some(sum)
    }

    /// Where the record of `account` stands, if it has one.
    fn find(&self, account: &Account) -> (found: Option<usize>)
        requires
            self.wf(),
        ensures
            match found {
                Some(i) => i < self.entries.len() && self.entries[i as int].account@ == account@,
                None => !has_key(self.pairs(), account@),
            },
    {
        let mut i: usize = 0;
        while i < self.entries.len()
            invariant
                i <= self.entries.len(),
                forall|j: int| 0 <= j < i ==> (#[trigger] self.pairs()[j]).0 != account@,
            decreases self.entries.len() - i,
        {
            if self.entries[i].account == *account {
                return Some(i);
            }
            assert(self.pairs()[i as int] == balance_pair(self.entries[i as int]));
            i += 1;
        }
        None
    }

    /// The balance of `account`; zero where it has no record.
    pub fn get(&self, account: &Account) -> (balance: Amount)
        requires
            self.wf(),
        ensures
            balance == balance_of(self@, account@),
    {
        proof {
            lemma_as_map(self.pairs());
        }
        match self.find(account) {
            Some(i) => {
                assert(self.pairs()[i as int] == balance_pair(self.entries[i as int]));
                self.entries[i].amount
            },
            None => 0,
        }
    }

    /// Sets the balance of `account` to `value`, dropping its record when
    /// `value` is zero.
    fn put(&mut self, account: &Account, value: Amount)
        requires
            old(self).wf(),
        ensures
            final(self).wf(),
            final(self)@ == with_balance(old(self)@, account@, value as nat),
    {
        let ghost before = self.pairs();
        proof {
            lemma_as_map(before);
        }
        match self.find(account) {
            Some(i) => {
                assert(before[i as int] == balance_pair(self.entries[i as int]));
                if value == 0 {
                    self.entries.remove(i);
                    proof {
                        lemma_as_map_remove(before, i as int);
                        assert(self.pairs() =~= before.remove(i as int));
                    }
                } else {
                    self.entries.set(i, BalanceEntry { account: account.clone(), amount: value });
                    proof {
                        lemma_as_map_update(before, i as int, value as nat);
                        assert(self.pairs() =~= before.update(
                            i as int,
                            (before[i as int].0, value as nat),
                        ));
                    }
                }
            },
            None => {
                if value == 0 {
                    assert(before == self.pairs());
                    assert(self@.remove(account@) =~= self@);
                } else {
                    self.entries.push(BalanceEntry { account: account.clone(), amount: value });
                    proof {
                        lemma_as_map_push(before, account@, value as nat);
                        assert(self.pairs() =~= before.push((account@, value as nat)));
                    }
                }
            },
        }
    }

    /// Adds `amount` to the balance of `account`, or fails with `Overflow`
    /// and changes nothing when the sum does not fit in an amount.
    pub fn increase(&mut self, account: &Account, amount: Amount) -> (r: Result<(), LedgerError>)
        requires
            old(self).wf(),
        ensures
            final(self).wf(),
            balance_of(old(self)@, account@) + amount <= MAX_AMOUNT ==> r == Ok::<(), LedgerError>(())
                && final(self)@ == credit(old(self)@, account@, amount as nat),
            balance_of(old(self)@, account@) + amount > MAX_AMOUNT ==> r == Err::<(), LedgerError>(
                LedgerError::Overflow,
            ) && final(self)@ == old(self)@,
    {
        let current: Amount = self.get(account);
        match crate::amount::add(current, amount) {
            Ok(value) => {
                self.put(account, value);
                Ok(())
            },
            Err(e) => Err(e),
        }
    }

    /// Takes `amount` from the balance of `account`, dropping its record when
    /// nothing is left, or fails with `InsufficientFunds` and changes nothing
    /// when the account holds less than `amount`.
    pub fn decrease(&mut self, account: &Account, amount: Amount) -> (r: Result<(), LedgerError>)
        requires
            old(self).wf(),
        ensures
            final(self).wf(),
            amount <= balance_of(old(self)@, account@) ==> r == Ok::<(), LedgerError>(())
                && final(self)@ == debit(old(self)@, account@, amount as nat),
            amount > balance_of(old(self)@, account@) ==> r == Err::<(), LedgerError>(
                LedgerError::InsufficientFunds,
            ) && final(self)@ == old(self)@,
    {
        let current: Amount = self.get(account);
        match crate::amount::sub(current, amount) {
            Ok(value) => {
                self.put(account, value);
                Ok(())
            },
            Err(_) => Err(LedgerError::InsufficientFunds),
        }
    }
}

} // verus!
