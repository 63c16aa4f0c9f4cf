use terraswap_token::balances::BalanceEntry;
use terraswap_token::contract::{execute, instantiate, query};
use terraswap_token::error::LedgerError;
use terraswap_token::ledger::Ledger;
use terraswap_token::msg::{
    Env, Event, ExecuteMsg, InstantiateMsg, MessageInfo, QueryMsg, QueryResponse, Response,
};
use terraswap_token::types::MAX_AMOUNT;

fn acct(name: &str) -> String {
    name.to_string()
}

fn holding(name: &str, amount: u128) -> BalanceEntry {
    BalanceEntry { account: acct(name), amount }
}

fn creation(initial_balances: Vec<BalanceEntry>, cap: Option<u128>) -> InstantiateMsg {
    InstantiateMsg {
        name: "Test Token".to_string(),
        symbol: "TST".to_string(),
        decimals: 6,
        initial_balances,
        minter: Some(acct("minter")),
        cap,
        null_account: None,
    }
}

fn send(ledger: &mut Ledger, now: u64, sender: &str, msg: ExecuteMsg) -> Result<Response, LedgerError> {
    execute(ledger, &Env { now }, &MessageInfo { sender: acct(sender) }, msg)
}

fn balance(ledger: &Ledger, name: &str) -> u128 {
    match query(ledger, &Env { now: 0 }, QueryMsg::Balance { address: acct(name) }) {
        QueryResponse::Balance { balance } => balance,
        other => panic!("unexpected answer {:?}", other),
    }
}

fn total_supply(ledger: &Ledger) -> u128 {
    match query(ledger, &Env { now: 0 }, QueryMsg::TotalSupply) {
        QueryResponse::TotalSupply { total_supply } => total_supply,
        other => panic!("unexpected answer {:?}", other),
    }
}

#[test]
fn instantiate_without_balances_gives_an_empty_ledger() {
    let ledger = instantiate(creation(vec![], None)).unwrap();
    assert_eq!(total_supply(&ledger), 0);
    assert_eq!(balance(&ledger, "alice"), 0);
}

#[test]
fn instantiate_issues_the_initial_balances() {
    let ledger =
        instantiate(creation(vec![holding("alice", 700), holding("bob", 300)], None)).unwrap();
    assert_eq!(balance(&ledger, "alice"), 700);
    assert_eq!(balance(&ledger, "bob"), 300);
    assert_eq!(total_supply(&ledger), 1000);
}

#[test]
fn instantiate_adds_up_an_account_listed_twice() {
    let ledger = instantiate(creation(
        vec![holding("alice", 700), holding("bob", 300), holding("alice", 5), holding("carol", 0)],
        None,
    ))
    .unwrap();
    assert_eq!(balance(&ledger, "alice"), 705);
    assert_eq!(balance(&ledger, "bob"), 300);
    assert_eq!(balance(&ledger, "carol"), 0);
    assert_eq!(total_supply(&ledger), 1005);
}

#[test]
fn instantiate_fails_when_the_supply_overflows() {
    let r = instantiate(creation(vec![holding("alice", MAX_AMOUNT), holding("bob", 1)], None));
    assert!(matches!(r, Err(LedgerError::Overflow)));
}

#[test]
fn instantiate_fails_when_the_supply_exceeds_the_cap() {
    let r = instantiate(creation(vec![holding("alice", 700), holding("bob", 301)], Some(1000)));
    assert!(matches!(r, Err(LedgerError::SupplyCapExceeded)));
    let ok = instantiate(creation(vec![holding("alice", 700), holding("bob", 300)], Some(1000)));
    assert!(ok.is_ok());
}

#[test]
fn instantiate_keeps_the_configuration() {
    let mut msg = creation(vec![], Some(77));
    msg.null_account = Some(acct("null"));
    let ledger = instantiate(msg).unwrap();
    assert_eq!(
        query(&ledger, &Env { now: 0 }, QueryMsg::Minter),
        QueryResponse::Minter { minter: Some(acct("minter")), cap: Some(77) }
    );
    assert_eq!(
        query(&ledger, &Env { now: 0 }, QueryMsg::TokenInfo),
        QueryResponse::TokenInfo {
            name: "Test Token".to_string(),
            symbol: "TST".to_string(),
            decimals: 6,
            total_supply: 0,
        }
    );
    assert_eq!(ledger.null_account(), &Some(acct("null")));
}

#[test]
fn execute_runs_the_scenario_through_messages() {
    let mut ledger = instantiate(creation(vec![], None)).unwrap();
    assert_eq!(
        send(&mut ledger, 1, "minter", ExecuteMsg::Mint { recipient: acct("alice"), amount: 1000 }),
        Ok(Response { events: vec![Event::Mint { to: acct("alice"), amount: 1000 }] })
    );
    assert_eq!(balance(&ledger, "alice"), 1000);
    assert_eq!(total_supply(&ledger), 1000);
    assert_eq!(
        send(
            &mut ledger,
            2,
            "alice",
            ExecuteMsg::Approve { spender: acct("bob"), amount: 400, expires: None }
        ),
        Ok(Response {
            events: vec![Event::Approval {
                owner: acct("alice"),
                spender: acct("bob"),
                allowance: 400,
                expires: None,
            }]
        })
    );
    assert_eq!(
        send(
            &mut ledger,
            3,
            "bob",
            ExecuteMsg::TransferFrom { owner: acct("alice"), recipient: acct("carol"), amount: 300 }
        ),
        Ok(Response {
            events: vec![
                Event::Spend { owner: acct("alice"), spender: acct("bob"), amount: 300 },
                Event::Transfer { from: acct("alice"), to: acct("carol"), amount: 300 },
            ]
        })
    );
    assert_eq!(balance(&ledger, "alice"), 700);
    assert_eq!(balance(&ledger, "carol"), 300);
    assert_eq!(
        query(
            &ledger,
            &Env { now: 3 },
            QueryMsg::Allowance { owner: acct("alice"), spender: acct("bob") }
        ),
        QueryResponse::Allowance { allowance: 100, expires: None }
    );
    assert_eq!(
        send(
            &mut ledger,
            4,
            "bob",
            ExecuteMsg::TransferFrom { owner: acct("alice"), recipient: acct("carol"), amount: 200 }
        ),
        Err(LedgerError::InsufficientAllowance)
    );
    assert_eq!(balance(&ledger, "alice"), 700);
    assert_eq!(balance(&ledger, "carol"), 300);
    assert_eq!(
        send(&mut ledger, 5, "alice", ExecuteMsg::Burn { amount: 700 }),
        Ok(Response { events: vec![Event::Burn { from: acct("alice"), amount: 700 }] })
    );
    assert_eq!(balance(&ledger, "alice"), 0);
    assert_eq!(total_supply(&ledger), 300);
}

#[test]
fn execute_dispatches_every_operation() {
    let mut ledger = instantiate(creation(vec![holding("alice", 1000)], None)).unwrap();
    assert_eq!(
        send(&mut ledger, 1, "alice", ExecuteMsg::Transfer { recipient: acct("bob"), amount: 10 }),
        Ok(Response {
            events: vec![Event::Transfer { from: acct("alice"), to: acct("bob"), amount: 10 }]
        })
    );
    assert_eq!(
        send(
            &mut ledger,
            1,
            "alice",
            ExecuteMsg::IncreaseAllowance { spender: acct("bob"), amount: 50, expires: Some(9) }
        ),
        Ok(Response {
            events: vec![Event::Approval {
                owner: acct("alice"),
                spender: acct("bob"),
                allowance: 50,
                expires: Some(9),
            }]
        })
    );
    assert_eq!(
        send(
            &mut ledger,
            2,
            "alice",
            ExecuteMsg::DecreaseAllowance { spender: acct("bob"), amount: 20, expires: None }
        ),
        Ok(Response {
            events: vec![Event::Approval {
                owner: acct("alice"),
                spender: acct("bob"),
                allowance: 30,
                expires: Some(9),
            }]
        })
    );
    assert_eq!(
        send(&mut ledger, 3, "bob", ExecuteMsg::BurnFrom { owner: acct("alice"), amount: 30 }),
        Ok(Response {
            events: vec![
                Event::Spend { owner: acct("alice"), spender: acct("bob"), amount: 30 },
                Event::Burn { from: acct("alice"), amount: 30 },
            ]
        })
    );
    assert_eq!(balance(&ledger, "alice"), 960);
    assert_eq!(balance(&ledger, "bob"), 10);
    assert_eq!(total_supply(&ledger), 970);
}

#[test]
fn execute_takes_the_caller_from_the_message_info() {
    let mut ledger = instantiate(creation(vec![holding("alice", 1000)], None)).unwrap();
    assert_eq!(
        send(&mut ledger, 1, "bob", ExecuteMsg::Transfer { recipient: acct("bob"), amount: 10 }),
        Err(LedgerError::InsufficientFunds)
    );
    assert_eq!(
        send(&mut ledger, 1, "alice", ExecuteMsg::Mint { recipient: acct("alice"), amount: 10 }),
        Err(LedgerError::Unauthorized)
    );
    assert_eq!(balance(&ledger, "alice"), 1000);
}

#[test]
fn execute_takes_the_time_from_the_environment() {
    let mut ledger = instantiate(creation(vec![holding("alice", 1000)], None)).unwrap();
    send(
        &mut ledger,
        5,
        "alice",
        ExecuteMsg::Approve { spender: acct("bob"), amount: 400, expires: Some(10) },
    )
    .unwrap();
    assert_eq!(
        send(
            &mut ledger,
            11,
            "bob",
            ExecuteMsg::TransferFrom { owner: acct("alice"), recipient: acct("bob"), amount: 1 }
        ),
        Err(LedgerError::InsufficientAllowance)
    );
    assert!(send(
        &mut ledger,
        10,
        "bob",
        ExecuteMsg::TransferFrom { owner: acct("alice"), recipient: acct("bob"), amount: 1 }
    )
    .is_ok());
    assert_eq!(
        send(
            &mut ledger,
            10,
            "alice",
            ExecuteMsg::Approve { spender: acct("bob"), amount: 400, expires: Some(10) }
        ),
        Err(LedgerError::InvalidExpiration)
    );
}

#[test]
fn query_reads_a_lapsed_allowance_as_zero() {
    let mut ledger = instantiate(creation(vec![holding("alice", 1000)], None)).unwrap();
    send(
        &mut ledger,
        5,
        "alice",
        ExecuteMsg::Approve { spender: acct("bob"), amount: 400, expires: Some(10) },
    )
    .unwrap();
    let ask = QueryMsg::Allowance { owner: acct("alice"), spender: acct("bob") };
    assert_eq!(
        query(&ledger, &Env { now: 10 }, ask.clone()),
        QueryResponse::Allowance { allowance: 400, expires: Some(10) }
    );
    assert_eq!(
        query(&ledger, &Env { now: 11 }, ask),
        QueryResponse::Allowance { allowance: 0, expires: None }
    );
    assert_eq!(
        query(
            &ledger,
            &Env { now: 0 },
            QueryMsg::Allowance { owner: acct("bob"), spender: acct("alice") }
        ),
        QueryResponse::Allowance { allowance: 0, expires: None }
    );
}

#[test]
fn query_changes_nothing() {
    let ledger = instantiate(creation(vec![holding("alice", 1000)], None)).unwrap();
    for _ in 0..3 {
        assert_eq!(balance(&ledger, "alice"), 1000);
        assert_eq!(balance(&ledger, "nobody"), 0);
        assert_eq!(total_supply(&ledger), 1000);
    }
}
