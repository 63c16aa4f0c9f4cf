//! A verified fungible-token ledger: account balances, delegated spending
//! allowances with optional expiry, and a total-supply counter that always
//! equals the sum of all balances.
//!
//! Every operation is atomic: it either commits all of its changes or fails
//! with a typed [`error::LedgerError`] and leaves the ledger untouched.
//!
//! The ledger is specified as a state machine over finite maps ([`model`],
//! [`state`]), implemented by [`ledger::Ledger`] over three stores
//! ([`balances`], [`allowances`], [`supply`]), and driven through the three
//! entry points of [`contract`]. What holds in every reachable state is
//! proved in [`laws`].

pub mod types;
pub mod error;
pub mod amount;
pub mod sum;
pub mod assoc;
pub mod model;
pub mod balances;
pub mod allowances;
pub mod supply;
pub mod msg;
pub mod state;
pub mod snapshot;
pub mod ledger;
pub mod contract;
pub mod laws;
