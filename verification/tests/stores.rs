use terraswap_token::allowances::{has_expired, AllowanceStore};
use terraswap_token::amount;
use terraswap_token::balances::BalanceStore;
use terraswap_token::error::LedgerError;
use terraswap_token::supply::SupplyTracker;
use terraswap_token::types::MAX_AMOUNT;

fn acct(name: &str) -> String {
    name.to_string()
}

#[test]
fn add_returns_the_sum() {
    assert_eq!(amount::add(2, 3), Ok(5));
    assert_eq!(amount::add(0, 0), Ok(0));
    assert_eq!(amount::add(MAX_AMOUNT - 1, 1), Ok(MAX_AMOUNT));
}

#[test]
fn add_fails_with_overflow_past_the_maximum() {
    assert_eq!(amount::add(MAX_AMOUNT, 1), Err(LedgerError::Overflow));
    assert_eq!(amount::add(1, MAX_AMOUNT), Err(LedgerError::Overflow));
    assert_eq!(amount::add(MAX_AMOUNT, MAX_AMOUNT), Err(LedgerError::Overflow));
}

#[test]
fn sub_returns_the_difference() {
    assert_eq!(amount::sub(5, 3), Ok(2));
    assert_eq!(amount::sub(5, 5), Ok(0));
    assert_eq!(amount::sub(MAX_AMOUNT, 0), Ok(MAX_AMOUNT));
}

#[test]
fn sub_fails_with_underflow_below_zero() {
    assert_eq!(amount::sub(3, 5), Err(LedgerError::Underflow));
    assert_eq!(amount::sub(0, 1), Err(LedgerError::Underflow));
}

#[test]
fn max_amount_is_the_largest_u128() {
    assert_eq!(MAX_AMOUNT, u128::MAX);
}

#[test]
fn absent_balance_reads_zero() {
    let store = BalanceStore::new();
    assert_eq!(store.get(&acct("alice")), 0);
}

#[test]
fn balance_increase_adds() {
    let mut store = BalanceStore::new();
    assert_eq!(store.increase(&acct("alice"), 40), Ok(()));
    assert_eq!(store.increase(&acct("alice"), 2), Ok(()));
    assert_eq!(store.increase(&acct("bob"), 7), Ok(()));
    assert_eq!(store.get(&acct("alice")), 42);
    assert_eq!(store.get(&acct("bob")), 7);
    assert_eq!(store.get(&acct("carol")), 0);
}

#[test]
fn balance_increase_overflow_changes_nothing() {
    let mut store = BalanceStore::new();
    assert_eq!(store.increase(&acct("alice"), MAX_AMOUNT), Ok(()));
    assert_eq!(store.increase(&acct("alice"), 1), Err(LedgerError::Overflow));
    assert_eq!(store.get(&acct("alice")), MAX_AMOUNT);
}

#[test]
fn balance_increase_by_zero_of_absent_account_reads_zero() {
    let mut store = BalanceStore::new();
    assert_eq!(store.increase(&acct("alice"), 0), Ok(()));
    assert_eq!(store.get(&acct("alice")), 0);
}

#[test]
fn balance_decrease_subtracts() {
    let mut store = BalanceStore::new();
    store.increase(&acct("alice"), 10).unwrap();
    assert_eq!(store.decrease(&acct("alice"), 4), Ok(()));
    assert_eq!(store.get(&acct("alice")), 6);
}

#[test]
fn balance_decrease_beyond_balance_is_insufficient_funds() {
    let mut store = BalanceStore::new();
    store.increase(&acct("alice"), 10).unwrap();
    assert_eq!(store.decrease(&acct("alice"), 11), Err(LedgerError::InsufficientFunds));
    assert_eq!(store.get(&acct("alice")), 10);
    assert_eq!(store.decrease(&acct("bob"), 1), Err(LedgerError::InsufficientFunds));
    assert_eq!(store.get(&acct("bob")), 0);
}

#[test]
fn balance_decrease_to_zero_equals_absence() {
    let mut store = BalanceStore::new();
    store.increase(&acct("alice"), 10).unwrap();
    store.increase(&acct("bob"), 3).unwrap();
    assert_eq!(store.decrease(&acct("alice"), 10), Ok(()));
    assert_eq!(store.get(&acct("alice")), 0);
    assert_eq!(store.get(&acct("bob")), 3);
    assert_eq!(store.increase(&acct("alice"), 5), Ok(()));
    assert_eq!(store.get(&acct("alice")), 5);
}

#[test]
fn accounts_are_told_apart_by_every_character() {
    let mut store = BalanceStore::new();
    store.increase(&acct("alice"), 1).unwrap();
    store.increase(&acct("alicf"), 2).unwrap();
    store.increase(&acct("alic"), 3).unwrap();
    store.increase(&acct(""), 4).unwrap();
    assert_eq!(store.get(&acct("alice")), 1);
    assert_eq!(store.get(&acct("alicf")), 2);
    assert_eq!(store.get(&acct("alic")), 3);
    assert_eq!(store.get(&acct("")), 4);
}

#[test]
fn expiry_is_strictly_after_the_expiration() {
    assert!(!has_expired(None, 0));
    assert!(!has_expired(None, u64::MAX));
    assert!(!has_expired(Some(10), 9));
    assert!(!has_expired(Some(10), 10));
    assert!(has_expired(Some(10), 11));
}

#[test]
fn absent_allowance_reads_zero() {
    let store = AllowanceStore::new();
    assert_eq!(store.get(&acct("alice"), &acct("bob"), 0), 0);
    assert_eq!(store.stored(&acct("alice"), &acct("bob")), (0, None));
}

#[test]
fn allowance_set_overwrites() {
    let mut store = AllowanceStore::new();
    store.set(&acct("alice"), &acct("bob"), 400, None);
    assert_eq!(store.get(&acct("alice"), &acct("bob"), 7), 400);
    store.set(&acct("alice"), &acct("bob"), 25, Some(9));
    assert_eq!(store.get(&acct("alice"), &acct("bob"), 7), 25);
    assert_eq!(store.stored(&acct("alice"), &acct("bob")), (25, Some(9)));
}

#[test]
fn allowance_is_directed_from_owner_to_spender() {
    let mut store = AllowanceStore::new();
    store.set(&acct("alice"), &acct("bob"), 400, None);
    assert_eq!(store.get(&acct("bob"), &acct("alice"), 0), 0);
    assert_eq!(store.get(&acct("alice"), &acct("carol"), 0), 0);
    store.set(&acct("bob"), &acct("alice"), 3, None);
    assert_eq!(store.get(&acct("alice"), &acct("bob"), 0), 400);
    assert_eq!(store.get(&acct("bob"), &acct("alice"), 0), 3);
}

#[test]
fn allowance_set_to_zero_removes_the_record() {
    let mut store = AllowanceStore::new();
    store.set(&acct("alice"), &acct("bob"), 400, Some(9));
    store.set(&acct("alice"), &acct("bob"), 0, Some(9));
    assert_eq!(store.get(&acct("alice"), &acct("bob"), 1), 0);
    assert_eq!(store.stored(&acct("alice"), &acct("bob")), (0, None));
}

#[test]
fn lapsed_allowance_reads_zero_but_stays_recorded() {
    let mut store = AllowanceStore::new();
    store.set(&acct("alice"), &acct("bob"), 400, Some(10));
    assert_eq!(store.get(&acct("alice"), &acct("bob"), 10), 400);
    assert_eq!(store.get(&acct("alice"), &acct("bob"), 11), 0);
    assert_eq!(store.stored(&acct("alice"), &acct("bob")), (400, Some(10)));
}

#[test]
fn allowance_increase_adds_and_returns_the_new_amount() {
    let mut store = AllowanceStore::new();
    assert_eq!(store.increase(&acct("alice"), &acct("bob"), 100, None), Ok(100));
    assert_eq!(store.increase(&acct("alice"), &acct("bob"), 50, None), Ok(150));
    assert_eq!(store.get(&acct("alice"), &acct("bob"), 0), 150);
}

#[test]
fn allowance_increase_keeps_the_expiration_unless_given_a_new_one() {
    let mut store = AllowanceStore::new();
    store.set(&acct("alice"), &acct("bob"), 100, Some(20));
    assert_eq!(store.increase(&acct("alice"), &acct("bob"), 1, None), Ok(101));
    assert_eq!(store.stored(&acct("alice"), &acct("bob")), (101, Some(20)));
    assert_eq!(store.increase(&acct("alice"), &acct("bob"), 1, Some(30)), Ok(102));
    assert_eq!(store.stored(&acct("alice"), &acct("bob")), (102, Some(30)));
}

#[test]
fn allowance_increase_overflow_changes_nothing() {
    let mut store = AllowanceStore::new();
    store.set(&acct("alice"), &acct("bob"), MAX_AMOUNT, Some(20));
    assert_eq!(
        store.increase(&acct("alice"), &acct("bob"), 1, Some(30)),
        Err(LedgerError::Overflow)
    );
    assert_eq!(store.stored(&acct("alice"), &acct("bob")), (MAX_AMOUNT, Some(20)));
}

#[test]
fn allowance_increase_adds_to_the_recorded_amount_even_when_lapsed() {
    let mut store = AllowanceStore::new();
    store.set(&acct("alice"), &acct("bob"), 100, Some(20));
    assert_eq!(store.increase(&acct("alice"), &acct("bob"), 5, Some(50)), Ok(105));
    assert_eq!(store.get(&acct("alice"), &acct("bob"), 40), 105);
}

#[test]
fn allowance_decrease_subtracts_and_returns_what_is_left() {
    let mut store = AllowanceStore::new();
    store.set(&acct("alice"), &acct("bob"), 100, Some(20));
    assert_eq!(store.decrease(&acct("alice"), &acct("bob"), 30, None, 5), Ok(70));
    assert_eq!(store.stored(&acct("alice"), &acct("bob")), (70, Some(20)));
    assert_eq!(store.decrease(&acct("alice"), &acct("bob"), 1, Some(25), 5), Ok(69));
    assert_eq!(store.stored(&acct("alice"), &acct("bob")), (69, Some(25)));
}

#[test]
fn allowance_decrease_to_zero_removes_the_record() {
    let mut store = AllowanceStore::new();
    store.set(&acct("alice"), &acct("bob"), 100, Some(20));
    assert_eq!(store.decrease(&acct("alice"), &acct("bob"), 100, None, 5), Ok(0));
    assert_eq!(store.stored(&acct("alice"), &acct("bob")), (0, None));
}

#[test]
fn allowance_decrease_beyond_the_allowance_changes_nothing() {
    let mut store = AllowanceStore::new();
    store.set(&acct("alice"), &acct("bob"), 100, Some(20));
    assert_eq!(
        store.decrease(&acct("alice"), &acct("bob"), 101, Some(30), 5),
        Err(LedgerError::InsufficientAllowance)
    );
    assert_eq!(store.stored(&acct("alice"), &acct("bob")), (100, Some(20)));
    assert_eq!(
        store.decrease(&acct("alice"), &acct("carol"), 1, None, 5),
        Err(LedgerError::InsufficientAllowance)
    );
}

#[test]
fn allowance_decrease_treats_a_lapsed_grant_as_zero() {
    let mut store = AllowanceStore::new();
    store.set(&acct("alice"), &acct("bob"), 100, Some(20));
    assert_eq!(
        store.decrease(&acct("alice"), &acct("bob"), 1, None, 21),
        Err(LedgerError::InsufficientAllowance)
    );
    assert_eq!(store.stored(&acct("alice"), &acct("bob")), (100, Some(20)));
    assert_eq!(store.decrease(&acct("alice"), &acct("bob"), 0, None, 21), Ok(0));
    assert_eq!(store.stored(&acct("alice"), &acct("bob")), (0, None));
}

#[test]
fn consume_spends_the_live_allowance() {
    let mut store = AllowanceStore::new();
    store.set(&acct("alice"), &acct("bob"), 100, Some(20));
    assert_eq!(store.consume(&acct("alice"), &acct("bob"), 60, 20), Ok(()));
    assert_eq!(store.stored(&acct("alice"), &acct("bob")), (40, Some(20)));
    assert_eq!(
        store.consume(&acct("alice"), &acct("bob"), 41, 20),
        Err(LedgerError::InsufficientAllowance)
    );
    assert_eq!(
        store.consume(&acct("alice"), &acct("bob"), 1, 21),
        Err(LedgerError::InsufficientAllowance)
    );
    assert_eq!(store.stored(&acct("alice"), &acct("bob")), (40, Some(20)));
    assert_eq!(store.consume(&acct("alice"), &acct("bob"), 40, 20), Ok(()));
    assert_eq!(store.stored(&acct("alice"), &acct("bob")), (0, None));
}

#[test]
fn supply_mint_and_burn() {
    let mut supply = SupplyTracker::new(0);
    assert_eq!(supply.total(), 0);
    assert_eq!(supply.mint_supply(1000), Ok(()));
    assert_eq!(supply.total(), 1000);
    assert_eq!(supply.burn_supply(300), Ok(()));
    assert_eq!(supply.total(), 700);
}

#[test]
fn supply_mint_overflow_changes_nothing() {
    let mut supply = SupplyTracker::new(MAX_AMOUNT - 1);
    assert_eq!(supply.mint_supply(2), Err(LedgerError::Overflow));
    assert_eq!(supply.total(), MAX_AMOUNT - 1);
    assert_eq!(supply.mint_supply(1), Ok(()));
    assert_eq!(supply.total(), MAX_AMOUNT);
}

#[test]
fn supply_burn_underflow_changes_nothing() {
    let mut supply = SupplyTracker::new(5);
    assert_eq!(supply.burn_supply(6), Err(LedgerError::Underflow));
    assert_eq!(supply.total(), 5);
    assert_eq!(supply.burn_supply(5), Ok(()));
    assert_eq!(supply.total(), 0);
}
