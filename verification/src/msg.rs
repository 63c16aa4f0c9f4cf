//! The values that cross the ledger's boundary: requests, the context they
//! arrive in, and what the ledger answers.

use vstd::prelude::*;
use crate::balances::BalanceEntry;
use crate::types::{Account, Amount, Timestamp};

verus! {

/// The token's descriptive metadata. It is set when the ledger is created and
/// never changes.
#[derive(Clone, Debug, PartialEq, Eq)]
pub struct TokenInfo {
    pub name: String,
    pub symbol: String,
    pub decimals: u8,
}

/// The moment at which a request is processed.
#[derive(Clone, Copy, Debug, PartialEq, Eq)]
pub struct Env {
    pub now: Timestamp,
}

/// Who sent a request. The host has authenticated this identity; no request
/// parameter can override it.
#[derive(Clone, Debug, PartialEq, Eq)]
pub struct MessageInfo {
    pub sender: Account,
}

/// How a ledger is created.
pub struct InstantiateMsg {
    pub name: String,
    pub symbol: String,
    pub decimals: u8,
    /// Balances credited at creation, one after the other. An account listed
    /// more than once receives the sum of its amounts.
    pub initial_balances: Vec<BalanceEntry>,
    /// The one account allowed to mint; nobody may where this is `None`.
    pub minter: Option<Account>,
    /// The ceiling of the total supply; unbounded where this is `None`.
    pub cap: Option<Amount>,
    /// The account that transfers may not name as their recipient, if the
    /// ledger has one.
    pub null_account: Option<Account>,
}

/// The operations that change the ledger.
#[derive(Clone, Debug, PartialEq, Eq)]
pub enum ExecuteMsg {
    /// Moves `amount` from the sender to `recipient`.
    Transfer { recipient: Account, amount: Amount },
    /// Moves `amount` from `owner` to `recipient` on the sender's allowance.
    TransferFrom { owner: Account, recipient: Account, amount: Amount },
    /// Creates `amount` new tokens for `recipient`.
    Mint { recipient: Account, amount: Amount },
    /// Destroys `amount` of the sender's tokens.
    Burn { amount: Amount },
    /// Destroys `amount` of `owner`'s tokens on the sender's allowance.
    BurnFrom { owner: Account, amount: Amount },
    /// Sets what `spender` may spend of the sender's tokens.
    Approve { spender: Account, amount: Amount, expires: Option<Timestamp> },
    /// Raises what `spender` may spend of the sender's tokens.
    IncreaseAllowance { spender: Account, amount: Amount, expires: Option<Timestamp> },
    /// Lowers what `spender` may spend of the sender's tokens.
    DecreaseAllowance { spender: Account, amount: Amount, expires: Option<Timestamp> },
}

/// The read-only questions the ledger answers.
#[derive(Clone, Debug, PartialEq, Eq)]
pub enum QueryMsg {
    Balance { address: Account },
    Allowance { owner: Account, spender: Account },
    TotalSupply,
    TokenInfo,
    Minter,
}

/// A record of one state change, for observers outside the ledger.
#[derive(Clone, Debug, PartialEq, Eq)]
pub enum Event {
    /// `amount` moved from `from` to `to`.
    Transfer { from: Account, to: Account, amount: Amount },
    /// `amount` was created for `to`.
    Mint { to: Account, amount: Amount },
    /// `amount` of `from`'s tokens was destroyed.
    Burn { from: Account, amount: Amount },
    /// `spender` used up `amount` of what `owner` had granted.
    Spend { owner: Account, spender: Account, amount: Amount },
    /// The grant from `owner` to `spender` now stands at `allowance`, with
    /// the expiration `expires`.
    Approval { owner: Account, spender: Account, allowance: Amount, expires: Option<Timestamp> },
}

/// What a successful operation hands back: the events it emitted, in order.
#[derive(Clone, Debug, PartialEq, Eq)]
pub struct Response {
    pub events: Vec<Event>,
}

/// The answer to a query.
#[derive(Clone, Debug, PartialEq, Eq)]
pub enum QueryResponse {
    Balance { balance: Amount },
    /// The live allowance, and its expiration while it is positive.
    Allowance { allowance: Amount, expires: Option<Timestamp> },
    TotalSupply { total_supply: Amount },
    TokenInfo { name: String, symbol: String, decimals: u8, total_supply: Amount },
    Minter { minter: Option<Account>, cap: Option<Amount> },
}

} // verus!
