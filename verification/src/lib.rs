//! A ledger for client accounts.
//!
//! Transactions (deposits, withdrawals, disputes, resolves and chargebacks)
//! are taken one at a time, each by the account of the client it names. An
//! account keeps three balances, locks for good after a chargeback, and
//! remembers every deposit and withdrawal so that a later dispute finds its
//! amount. Amounts are exact decimals: a balance is either computed exactly
//! or the transaction is turned down.

pub mod amount;
pub mod client;
pub mod decimal;
pub mod exact;
pub mod laws;
pub mod ledger;
pub mod name;
pub mod registry;
pub mod transaction;

pub use amount::Amount;
pub use client::Client;
pub use registry::Registry;
pub use transaction::{ApplyError, TransType, Transaction, TxState};
