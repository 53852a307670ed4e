//! An in-memory transaction ledger.
//!
//! Records (deposits, withdrawals, disputes, resolves and chargebacks) are
//! applied one at a time to a [`db::Database`], which holds the account of
//! every client and every transaction recorded so far. A record is either
//! applied as a whole or rejected with a [`error::LedgerError`], and a rejected
//! record changes nothing. No balance is ever negative. Balances are decimal
//! [`amount::Amount`]s computed by rust_decimal, exact wherever the exact
//! balance can be written as an amount.
//!
//! What the operations do is defined on [`db::Ledger`], the mathematical state
//! of a database; [`laws`] holds what follows for every ledger.

pub mod account;
pub mod amount;
pub mod db;
pub mod error;
pub mod laws;
pub mod tx;
