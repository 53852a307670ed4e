//! Why a record was not applied.

use vstd::prelude::*;

verus! {

/// The reasons for which the ledger rejects a record. A rejected record
/// changes nothing.
#[derive(Clone, Copy, Debug, PartialEq, Eq, Structural)]
pub enum LedgerError {
    /// The amount of a deposit or withdrawal is negative.
    InvalidAmount,
    /// The transaction id of a deposit or withdrawal is already recorded.
    DuplicateTx,
    /// The operation would take more than the client's available funds.
    InsufficientFunds,
    /// The operation would release more than the client's held funds.
    InsufficientHeld,
    /// A dispute, resolve or chargeback names a client that has no account.
    NoSuchClient,
    /// A dispute, resolve or chargeback names a transaction that is not
    /// recorded.
    NoSuchTx,
    /// The transaction named is a withdrawal.
    NotDisputable,
    /// rust_decimal gives no balance for the operation. That is only so where
    /// the exact balance is beyond what an amount can hold: where no 96-bit
    /// mantissa writes it at any scale from 0 to 28.
    Overflow,
}

} // verus!
