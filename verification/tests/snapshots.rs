use terraswap_token::allowances::{AllowanceEntry, AllowanceStore};
use terraswap_token::balances::{BalanceEntry, BalanceStore};
use terraswap_token::ledger::Ledger;
use terraswap_token::msg::TokenInfo;
use terraswap_token::snapshot::Snapshot;
use terraswap_token::types::MAX_AMOUNT;

fn acct(name: &str) -> String {
    name.to_string()
}

fn token() -> TokenInfo {
    TokenInfo { name: "Test Token".to_string(), symbol: "TST".to_string(), decimals: 6 }
}

fn holding(name: &str, amount: u128) -> BalanceEntry {
    BalanceEntry { account: acct(name), amount }
}

fn grant(owner: &str, spender: &str, remaining: u128, expiration: Option<u64>) -> AllowanceEntry {
    AllowanceEntry { owner: acct(owner), spender: acct(spender), remaining, expiration }
}

fn sound() -> Snapshot {
    Snapshot {
        token: token(),
        minter: Some(acct("minter")),
        cap: Some(5000),
        null_account: Some(acct("null")),
        balances: vec![holding("alice", 700), holding("carol", 300)],
        allowances: vec![grant("alice", "bob", 100, Some(9)), grant("bob", "alice", 1, None)],
        total_supply: 1000,
    }
}

#[test]
fn balance_entries_are_listed_in_order_of_creation() {
    let mut store = BalanceStore::new();
    store.increase(&acct("alice"), 10).unwrap();
    store.increase(&acct("bob"), 20).unwrap();
    store.increase(&acct("carol"), 30).unwrap();
    store.decrease(&acct("bob"), 20).unwrap();
    store.increase(&acct("alice"), 1).unwrap();
    assert_eq!(store.entries(), vec![holding("alice", 11), holding("carol", 30)]);
}

#[test]
fn balance_store_from_entries_holds_them() {
    let store = BalanceStore::from_entries(vec![holding("alice", 11), holding("carol", 30)]).unwrap();
    assert_eq!(store.get(&acct("alice")), 11);
    assert_eq!(store.get(&acct("carol")), 30);
    assert_eq!(store.get(&acct("bob")), 0);
    assert_eq!(store.sum(), Some(41));
}

#[test]
fn balance_store_from_entries_refuses_duplicates_and_zeros() {
    assert!(BalanceStore::from_entries(vec![]).is_some());
    assert!(BalanceStore::from_entries(vec![holding("alice", 1), holding("alice", 2)]).is_none());
    assert!(BalanceStore::from_entries(vec![
        holding("alice", 1),
        holding("bob", 2),
        holding("alice", 1)
    ])
    .is_none());
    assert!(BalanceStore::from_entries(vec![holding("alice", 1), holding("bob", 0)]).is_none());
}

#[test]
fn balance_sum_adds_every_record() {
    let mut store = BalanceStore::new();
    assert_eq!(store.sum(), Some(0));
    store.increase(&acct("alice"), 10).unwrap();
    store.increase(&acct("bob"), 20).unwrap();
    assert_eq!(store.sum(), Some(30));
    store.increase(&acct("carol"), MAX_AMOUNT - 30).unwrap();
    assert_eq!(store.sum(), Some(MAX_AMOUNT));
    store.increase(&acct("dave"), 1).unwrap();
    assert_eq!(store.sum(), None);
}

#[test]
fn allowance_entries_are_listed_in_order_of_creation() {
    let mut store = AllowanceStore::new();
    store.set(&acct("alice"), &acct("bob"), 10, Some(5));
    store.set(&acct("bob"), &acct("alice"), 20, None);
    store.set(&acct("alice"), &acct("bob"), 11, None);
    store.set(&acct("bob"), &acct("alice"), 0, None);
    store.set(&acct("carol"), &acct("bob"), 3, Some(7));
    assert_eq!(
        store.entries(),
        vec![grant("alice", "bob", 11, None), grant("carol", "bob", 3, Some(7))]
    );
}

#[test]
fn allowance_store_from_entries_refuses_duplicates_and_zeros() {
    assert!(AllowanceStore::from_entries(vec![]).is_some());
    let store = AllowanceStore::from_entries(vec![
        grant("alice", "bob", 1, None),
        grant("bob", "alice", 2, Some(4)),
        grant("alice", "carol", 3, None),
    ])
    .unwrap();
    assert_eq!(store.get(&acct("alice"), &acct("bob"), 0), 1);
    assert_eq!(store.get(&acct("bob"), &acct("alice"), 4), 2);
    assert_eq!(store.get(&acct("bob"), &acct("alice"), 5), 0);
    assert_eq!(store.get(&acct("alice"), &acct("carol"), 0), 3);
    assert!(AllowanceStore::from_entries(vec![
        grant("alice", "bob", 1, None),
        grant("alice", "bob", 2, Some(4)),
    ])
    .is_none());
    assert!(AllowanceStore::from_entries(vec![grant("alice", "bob", 0, None)]).is_none());
}

#[test]
fn restore_gives_the_ledger_the_snapshot_stands_for() {
    let ledger = Ledger::restore(sound()).unwrap();
    assert_eq!(ledger.balance(&acct("alice")), 700);
    assert_eq!(ledger.balance(&acct("carol")), 300);
    assert_eq!(ledger.balance(&acct("bob")), 0);
    assert_eq!(ledger.total_supply(), 1000);
    assert_eq!(ledger.allowance(&acct("alice"), &acct("bob"), 9), 100);
    assert_eq!(ledger.allowance(&acct("alice"), &acct("bob"), 10), 0);
    assert_eq!(ledger.allowance(&acct("bob"), &acct("alice"), 10), 1);
    assert_eq!(ledger.token(), &token());
    assert_eq!(ledger.minter(), &Some(acct("minter")));
    assert_eq!(ledger.cap(), Some(5000));
    assert_eq!(ledger.null_account(), &Some(acct("null")));
}

#[test]
fn restore_refuses_a_supply_that_is_not_the_sum_of_the_balances() {
    let mut snapshot = sound();
    snapshot.total_supply = 999;
    assert!(Ledger::restore(snapshot).is_none());
    let mut snapshot = sound();
    snapshot.total_supply = 1001;
    assert!(Ledger::restore(snapshot).is_none());
    let mut snapshot = sound();
    snapshot.balances = vec![holding("alice", MAX_AMOUNT), holding("carol", 1)];
    snapshot.cap = None;
    snapshot.total_supply = 0;
    assert!(Ledger::restore(snapshot).is_none());
}

#[test]
fn restore_refuses_a_supply_above_the_cap() {
    let mut snapshot = sound();
    snapshot.cap = Some(999);
    assert!(Ledger::restore(snapshot).is_none());
    let mut snapshot = sound();
    snapshot.cap = Some(1000);
    assert!(Ledger::restore(snapshot).is_some());
}

#[test]
fn restore_refuses_records_that_are_double_or_zero() {
    let mut snapshot = sound();
    snapshot.balances = vec![holding("alice", 700), holding("alice", 300)];
    assert!(Ledger::restore(snapshot).is_none());
    let mut snapshot = sound();
    snapshot.balances = vec![holding("alice", 1000), holding("carol", 0)];
    assert!(Ledger::restore(snapshot).is_none());
    let mut snapshot = sound();
    snapshot.allowances = vec![grant("alice", "bob", 1, None), grant("alice", "bob", 1, None)];
    assert!(Ledger::restore(snapshot).is_none());
    let mut snapshot = sound();
    snapshot.allowances = vec![grant("alice", "bob", 0, None)];
    assert!(Ledger::restore(snapshot).is_none());
}

#[test]
fn snapshot_and_restore_round_trip() {
    let mut ledger = Ledger::new(token(), Some(acct("minter")), Some(5000), Some(acct("null")));
    ledger.mint(&acct("minter"), &acct("alice"), 1000).unwrap();
    ledger.approve(&acct("alice"), &acct("bob"), 400, Some(9), 1).unwrap();
    ledger.transfer_from(&acct("bob"), &acct("alice"), &acct("carol"), 300, 2).unwrap();
    ledger.approve(&acct("bob"), &acct("alice"), 1, None, 2).unwrap();
    let snapshot = ledger.snapshot();
    assert_eq!(snapshot, sound());
    let restored = Ledger::restore(snapshot.clone()).unwrap();
    assert_eq!(restored.snapshot(), snapshot);
}

#[test]
fn snapshot_of_a_new_ledger_is_empty() {
    let ledger = Ledger::new(token(), None, None, None);
    assert_eq!(
        ledger.snapshot(),
        Snapshot {
            token: token(),
            minter: None,
            cap: None,
            null_account: None,
            balances: vec![],
            allowances: vec![],
            total_supply: 0,
        }
    );
}
