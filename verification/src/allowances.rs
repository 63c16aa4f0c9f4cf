//! The allowance store: what each owner has granted each spender, with an
//! optional expiration. A lapsed grant counts as zero but stays recorded until
//! it is next written.

use vstd::prelude::*;
use crate::assoc::{
    as_map, distinct_keys, has_key, lemma_as_map, lemma_as_map_push, lemma_as_map_remove,
    lemma_as_map_update,
};
use crate::error::LedgerError;
use crate::model::{
    grant_decreased, grant_increased, grants_wf, is_expired, live_allowance, stored_allowance,
    stored_expiration, with_grant, Grant, Grants,
};
use crate::types::{Account, Amount, Timestamp, MAX_AMOUNT};

verus! {

/// One record of the allowance store.
#[derive(Clone, Debug, PartialEq, Eq)]
pub struct AllowanceEntry {
    pub owner: Account,
    pub spender: Account,
    pub remaining: Amount,
    pub expiration: Option<Timestamp>,
}

/// The key and value a record stands for.
pub open spec fn allowance_pair(entry: AllowanceEntry) -> ((Seq<char>, Seq<char>), Grant) {
    (
        (entry.owner@, entry.spender@),
        Grant { remaining: entry.remaining as nat, expiration: entry.expiration },
    )
}

/// The keys and values a list of records stands for.
pub open spec fn allowance_pairs(entries: Seq<AllowanceEntry>) -> Seq<((Seq<char>, Seq<char>), Grant)> {
    entries.map_values(|e: AllowanceEntry| allowance_pair(e))
}

/// A list of records that can be a store's: no pair of owner and spender
/// occurs twice and no record grants zero.
pub open spec fn allowance_entries_valid(entries: Seq<AllowanceEntry>) -> bool {
    &&& distinct_keys(allowance_pairs(entries))
    &&& forall|i: int| 0 <= i < entries.len() ==> (#[trigger] entries[i]).remaining > 0
}

/// Whether a grant with this expiration has lapsed at `now`.
pub fn has_expired(expiration: Option<Timestamp>, now: Timestamp) -> (lapsed: bool)
    ensures
        lapsed == is_expired(expiration, now),
{
    match expiration {
        Some(e) => now > e,
        None => false,
    }
}

/// Grants by owner and spender. The store never keeps a grant of zero.
pub struct AllowanceStore {
    entries: Vec<AllowanceEntry>,
}

impl View for AllowanceStore {
    type V = Grants;

    closed spec fn view(&self) -> Grants {
        as_map(self.pairs())
    }
}

impl AllowanceStore {
    /// The records as key-value pairs, in the order they were created.
    spec fn pairs(&self) -> Seq<((Seq<char>, Seq<char>), Grant)> {
        allowance_pairs(self.entries@)
    }

    /// No pair has two records and no record grants zero.
    pub closed spec fn wf(&self) -> bool {
        allowance_entries_valid(self.entries@)
    }

    /// A well-formed store stands for well-formed grants.
    pub proof fn lemma_view(&self)
        requires
            self.wf(),
        ensures
            grants_wf(self@),
    {
        let pairs = self.pairs();
        lemma_as_map(pairs);
        assert forall|k: (Seq<char>, Seq<char>)| self@.contains_key(k) implies 0 < (
        #[trigger] self@[k]).remaining <= MAX_AMOUNT by {
            let i = choose|i: int| 0 <= i < pairs.len() && (#[trigger] pairs[i]).0 == k;
            assert(pairs[i] == allowance_pair(self.entries[i]));
            assert(self@[pairs[i].0] == pairs[i].1);
        }
    }

    /// A store without records: nobody may spend anything of anyone's.
    pub fn new() -> (store: Self)
        ensures
            store.wf(),
            store@ == Map::<(Seq<char>, Seq<char>), Grant>::empty(),
    {
        let store = AllowanceStore { entries: Vec::new() };
        assert(store.pairs() =~= Seq::empty());
        store
    }

    /// A copy of the records, in the order they were created.
    pub fn entries(&self) -> (entries: Vec<AllowanceEntry>)
        requires
            self.wf(),
        ensures
            allowance_entries_valid(entries@),
            as_map(allowance_pairs(entries@)) == self@,
    {
        let mut entries: Vec<AllowanceEntry> = Vec::new();
        let mut i: usize = 0;
        while i < self.entries.len()
            invariant
                i <= self.entries.len(),
                entries@ == self.entries@.take(i as int),
            decreases self.entries.len() - i,
        {
            entries.push(
                AllowanceEntry {
                    owner: self.entries[i].owner.clone(),
                    spender: self.entries[i].spender.clone(),
                    remaining: self.entries[i].remaining,
                    expiration: self.entries[i].expiration,
                },
            );
            assert(entries@ =~= self.entries@.take(i as int + 1));
            i += 1;
        }
        assert(entries@ =~= self.entries@);
        entries
    }

    /// The store that holds exactly `entries`, where they can be a store's:
    /// where no pair occurs twice and no record grants zero.
    pub fn from_entries(entries: Vec<AllowanceEntry>) -> (r: Option<AllowanceStore>)
        ensures
            r is Some <==> allowance_entries_valid(entries@),
            r matches Some(store) ==> store.wf() && store@ == as_map(allowance_pairs(entries@)),
    {
        let ghost pairs = allowance_pairs(entries@);
        let mut i: usize = 0;
        while i < entries.len()
            invariant
                i <= entries.len(),
                pairs == allowance_pairs(entries@),
                forall|a: int, b: int| 0 <= a < b < i ==> (#[trigger] pairs[a]).0 != (
                #[trigger] pairs[b]).0,
                forall|a: int| 0 <= a < i ==> (#[trigger] entries[a]).remaining > 0,
            decreases entries.len() - i,
        {
            if entries[i].remaining == 0 {
                return None;
            }
            let mut j: usize = 0;
            while j < i
                invariant
                    j <= i < entries.len(),
                    pairs == allowance_pairs(entries@),
                    forall|a: int| 0 <= a < j ==> (#[trigger] pairs[a]).0 != pairs[i as int].0,
                decreases i - j,
            {
                if entries[j].owner == entries[i].owner && entries[j].spender
                    == entries[i].spender {
                    assert(pairs[j as int].0 == pairs[i as int].0);
                    return None;
                }
                j += 1;
            }
            i += 1;
        }
        Some(AllowanceStore { entries })
    }

    /// Where the record of the pair stands, if it has one.
    fn find(&self, owner: &Account, spender: &Account) -> (found: Option<usize>)
        requires
            self.wf(),
        ensures
            match found {
                Some(i) => i < self.entries.len() && self.entries[i as int].owner@ == owner@
                    && self.entries[i as int].spender@ == spender@,
                None => !has_key(self.pairs(), (owner@, spender@)),
            },
    {
        let mut i: usize = 0;
        while i < self.entries.len()
            invariant
                i <= self.entries.len(),
                forall|j: int| 0 <= j < i ==> (#[trigger] self.pairs()[j]).0 != (owner@, spender@),
            decreases self.entries.len() - i,
        {
            if self.entries[i].owner == *owner && self.entries[i].spender == *spender {
                return Some(i);
            }
            assert(self.pairs()[i as int] == allowance_pair(self.entries[i as int]));
            i += 1;
        }
        None
    }

    /// The amount and expiration recorded for the pair, lapsed or not; zero
    /// and none where nothing is recorded.
    pub fn stored(&self, owner: &Account, spender: &Account) -> (record: (
        Amount,
        Option<Timestamp>,
    ))
        requires
            self.wf(),
        ensures
            record.0 == stored_allowance(self@, owner@, spender@),
            record.1 == stored_expiration(self@, owner@, spender@),
    {
        proof {
            lemma_as_map(self.pairs());
        }
        match self.find(owner, spender) {
            Some(i) => {
                assert(self.pairs()[i as int] == allowance_pair(self.entries[i as int]));
                (self.entries[i].remaining, self.entries[i].expiration)
            },
            None => (0, None),
        }
    }

    /// What `spender` may spend of `owner`'s funds at `now`: zero where
    /// nothing is recorded or the grant has lapsed.
    pub fn get(&self, owner: &Account, spender: &Account, now: Timestamp) -> (allowance: Amount)
        requires
            self.wf(),
        ensures
            allowance == live_allowance(self@, owner@, spender@, now),
    {
        let (remaining, expiration) = self.stored(owner, spender);
        if has_expired(expiration, now) {
            0
        } else {
            remaining
        }
    }

    /// Overwrites the pair's grant, dropping its record when `amount` is
    /// zero.
    pub fn set(
        &mut self,
        owner: &Account,
        spender: &Account,
        amount: Amount,
        expiration: Option<Timestamp>,
    )
        requires
            old(self).wf(),
        ensures
            final(self).wf(),
            final(self)@ == with_grant(old(self)@, owner@, spender@, amount as nat, expiration),
    {
        let ghost before = self.pairs();
        let ghost key = (owner@, spender@);
        let ghost grant = Grant { remaining: amount as nat, expiration };
        proof {
            lemma_as_map(before);
        }
        match self.find(owner, spender) {
            Some(i) => {
                assert(before[i as int] == allowance_pair(self.entries[i as int]));
                if amount == 0 {
                    self.entries.remove(i);
                    proof {
                        lemma_as_map_remove(before, i as int);
                        assert(self.pairs() =~= before.remove(i as int));
                    }
                } else {
                    self.entries.set(
                        i,
                        AllowanceEntry {
                            owner: owner.clone(),
                            spender: spender.clone(),
                            remaining: amount,
                            expiration,
                        },
                    );
                    proof {
                        lemma_as_map_update(before, i as int, grant);
                        assert(self.pairs() =~= before.update(i as int, (before[i as int].0, grant)));
                    }
                }
            },
            None => {
                if amount == 0 {
                    assert(before == self.pairs());
                    assert(self@.remove(key) =~= self@);
                } else {
                    self.entries.push(
                        AllowanceEntry {
                            owner: owner.clone(),
                            spender: spender.clone(),
                            remaining: amount,
                            expiration,
                        },
                    );
                    proof {
                        lemma_as_map_push(before, key, grant);
                        assert(self.pairs() =~= before.push((key, grant)));
                    }
                }
            },
        }
    }

    /// Adds `delta` to the amount recorded for the pair and returns the new
    /// amount. A new expiration, where one is given, replaces the recorded
    /// one; otherwise the recorded one is kept. Fails with `Overflow` and
    /// changes nothing when the sum does not fit in an amount.
    pub fn increase(
        &mut self,
        owner: &Account,
        spender: &Account,
        delta: Amount,
        new_expiration: Option<Timestamp>,
    ) -> (r: Result<Amount, LedgerError>)
        requires
            old(self).wf(),
        ensures
            final(self).wf(),
            stored_allowance(old(self)@, owner@, spender@) + delta <= MAX_AMOUNT ==> r == Ok::<
                Amount,
                LedgerError,
            >((stored_allowance(old(self)@, owner@, spender@) + delta) as Amount) && final(self)@
                == grant_increased(old(self)@, owner@, spender@, delta as nat, new_expiration),
            stored_allowance(old(self)@, owner@, spender@) + delta > MAX_AMOUNT ==> r == Err::<
                Amount,
                LedgerError,
            >(LedgerError::Overflow) && final(self)@ == old(self)@,
    {
        let (current, recorded) = self.stored(owner, spender);
        let expiration = match new_expiration {
            Some(e) => Some(e),
            None => recorded,
        };
        match crate::amount::add(current, delta) {
            Ok(remaining) => {
                self.set(owner, spender, remaining, expiration);
                Ok(remaining)
            },
            Err(e) => Err(e),
        }
    }

    /// Takes `delta` from the pair's live allowance at `now` and returns what
    /// is left, dropping the record when nothing is. The expiration follows
    /// the rule of [`AllowanceStore::increase`]. Fails with
    /// `InsufficientAllowance` and changes nothing when the live allowance is
    /// smaller than `delta`; a lapsed grant counts as zero here.
    pub fn decrease(
        &mut self,
        owner: &Account,
        spender: &Account,
        delta: Amount,
        new_expiration: Option<Timestamp>,
        now: Timestamp,
    ) -> (r: Result<Amount, LedgerError>)
        requires
            old(self).wf(),
        ensures
            final(self).wf(),
            delta <= live_allowance(old(self)@, owner@, spender@, now) ==> r == Ok::<
                Amount,
                LedgerError,
            >((live_allowance(old(self)@, owner@, spender@, now) - delta) as Amount) && final(self)@
                == grant_decreased(old(self)@, owner@, spender@, delta as nat, new_expiration, now),
            delta > live_allowance(old(self)@, owner@, spender@, now) ==> r == Err::<
                Amount,
                LedgerError,
            >(LedgerError::InsufficientAllowance) && final(self)@ == old(self)@,
    {
        let (current, recorded) = self.stored(owner, spender);
        let live: Amount = if has_expired(recorded, now) {
            0
        } else {
            current
        };
        let expiration = match new_expiration {
            Some(e) => Some(e),
            None => recorded,
        };
        match crate::amount::sub(live, delta) {
            Ok(remaining) => {
                self.set(owner, spender, remaining, expiration);
                Ok(remaining)
            },
            Err(_) => Err(LedgerError::InsufficientAllowance),
        }
    }

    /// Spends `amount` of the pair's live allowance at `now`: a decrease
    /// that keeps the recorded expiration.
    pub fn consume(&mut self, owner: &Account, spender: &Account, amount: Amount, now: Timestamp) -> (r:
        Result<(), LedgerError>)
        requires
            old(self).wf(),
        ensures
            final(self).wf(),
            amount <= live_allowance(old(self)@, owner@, spender@, now) ==> r == Ok::<
                (),
                LedgerError,
            >(()) && final(self)@ == grant_decreased(
                old(self)@,
                owner@,
                spender@,
                amount as nat,
                None,
                now,
            ),
            amount > live_allowance(old(self)@, owner@, spender@, now) ==> r == Err::<
                (),
                LedgerError,
            >(LedgerError::InsufficientAllowance) && final(self)@ == old(self)@,
    {
        match self.decrease(owner, spender, amount, None, now) {
            Ok(_) => Ok(()),
            Err(e) => Err(e),
        }
    }
}

} // verus!
