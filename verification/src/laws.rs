//! What holds of every ledger, proved from the definitions of the operations.
//!
//! Balances are computed by rust_decimal, which is exact wherever the exact
//! result can be written as an amount and rounds or fails where it cannot. A
//! law that speaks of an exact balance therefore asks that this balance can
//! be written.

use crate::amount::{writable, Amount};
use crate::db::{ClientId, Ledger, Tx, TxId};
use crate::error::LedgerError;
use crate::tx::Record;
use vstd::prelude::*;

verus! {

/// An accepted deposit whose new balance can be written as an amount adds
/// exactly its amount to the client's available funds. Any accepted deposit
/// leaves the client's held funds and lock and every other account as they
/// were, and records the transaction.
pub proof fn deposit_credits_exactly(ledger: Ledger, client: ClientId, tx: TxId, amount: Amount)
    requires
        ledger.wf(),
        amount.valid(),
        ledger.deposit(client, tx, amount).result is Ok,
    ensures
        ({
            let before = ledger.client_or_new(client);
            let after = ledger.deposit(client, tx, amount).ledger;
            &&& after.wf()
            &&& after.clients.contains_key(client)
            &&& writable(before.available@ + amount@) ==> after.clients[client].available@
                == before.available@ + amount@
            &&& after.clients[client].held == before.held
            &&& after.clients[client].locked == before.locked
            &&& after.clients.remove(client) == ledger.clients.remove(client)
            &&& after.txs == ledger.txs.insert(tx, Tx { id: tx, amount })
        }),
{
    Amount::lemma_from_parts(0, 0);
    ledger.client_or_new(client).lemma_add_available(amount);
    let after = ledger.deposit(client, tx, amount).ledger;
    assert(after.clients.remove(client) =~= ledger.clients.remove(client));
}

/// Once a deposit is accepted, a deposit or a withdrawal that uses its
/// transaction id again is rejected, whatever its client and amount, and
/// leaves the ledger as it was.
pub proof fn deposit_id_not_reused(
    ledger: Ledger,
    client: ClientId,
    tx: TxId,
    amount: Amount,
    second_client: ClientId,
    second_amount: Amount,
)
    requires
        ledger.deposit(client, tx, amount).result is Ok,
    ensures
        ({
            let after = ledger.deposit(client, tx, amount).ledger;
            &&& after.deposit(second_client, tx, second_amount) == after.rejected(
                LedgerError::DuplicateTx,
            )
            &&& after.withdraw(second_client, tx, second_amount) == after.rejected(
                LedgerError::DuplicateTx,
            )
            &&& after.rejected(LedgerError::DuplicateTx).ledger == after
        }),
{
}

/// An accepted withdrawal whose new balance can be written as an amount takes
/// exactly its amount from the client's available funds. Any accepted
/// withdrawal leaves the client's held funds and lock and every other account
/// as they were, and records the transaction with the negated amount.
pub proof fn withdrawal_debits_exactly(ledger: Ledger, client: ClientId, tx: TxId, amount: Amount)
    requires
        ledger.wf(),
        amount.valid(),
        ledger.withdraw(client, tx, amount).result is Ok,
    ensures
        ({
            let before = ledger.client_or_new(client);
            let after = ledger.withdraw(client, tx, amount).ledger;
            &&& after.wf()
            &&& after.clients.contains_key(client)
            &&& writable(before.available@ - amount@) ==> after.clients[client].available@
                == before.available@ - amount@
            &&& after.clients[client].held == before.held
            &&& after.clients[client].locked == before.locked
            &&& after.clients.remove(client) == ledger.clients.remove(client)
            &&& after.txs.contains_key(tx)
            &&& after.txs[tx].amount@ == -amount@
            &&& after.txs.remove(tx) == ledger.txs.remove(tx)
        }),
{
    Amount::lemma_from_parts(0, 0);
    amount.lemma_negated();
    ledger.client_or_new(client).lemma_add_available(amount.negated());
    let after = ledger.withdraw(client, tx, amount).ledger;
    assert(after.clients.remove(client) =~= ledger.clients.remove(client));
    assert(after.txs.remove(tx) =~= ledger.txs.remove(tx));
}

/// A withdrawal of more than the client's available funds is rejected and
/// leaves the ledger as it was; where its transaction id is new, the reason
/// is `InsufficientFunds`.
pub proof fn overdraft_rejected(ledger: Ledger, client: ClientId, tx: TxId, amount: Amount)
    requires
        ledger.wf(),
        amount.valid(),
        amount@ > ledger.client_or_new(client).available@,
    ensures
        ledger.withdraw(client, tx, amount).result is Err,
        ledger.withdraw(client, tx, amount).ledger == ledger,
        !ledger.txs.contains_key(tx) ==> ledger.withdraw(client, tx, amount).result == Err::<
            (),
            LedgerError,
        >(LedgerError::InsufficientFunds),
{
    amount.lemma_negated();
    Amount::lemma_from_parts(0, 0);
}

/// An accepted dispute takes exactly the amount of the transaction from the
/// client's available funds and adds exactly that amount to its held funds,
/// each where the new balance can be written as an amount.
pub proof fn dispute_holds_exactly(ledger: Ledger, client: ClientId, tx: TxId)
    requires
        ledger.wf(),
        ledger.dispute(client, tx).result is Ok,
    ensures
        ({
            let before = ledger.clients[client];
            let after = ledger.dispute(client, tx).ledger;
            &&& after.wf()
            &&& ledger.clients.contains_key(client)
            &&& ledger.txs.contains_key(tx)
            &&& after.clients.contains_key(client)
            &&& writable(before.available@ - ledger.txs[tx].amount@)
                ==> after.clients[client].available@ == before.available@ - ledger.txs[tx].amount@
            &&& writable(before.held@ + ledger.txs[tx].amount@) ==> after.clients[client].held@
                == before.held@ + ledger.txs[tx].amount@
            &&& after.clients[client].locked == before.locked
            &&& after.clients.remove(client) == ledger.clients.remove(client)
            &&& after.txs == ledger.txs
        }),
{
    ledger.clients[client].lemma_add_held(ledger.txs[tx].amount);
    let after = ledger.dispute(client, tx).ledger;
    assert(after.clients.remove(client) =~= ledger.clients.remove(client));
}

/// An accepted resolve takes exactly the amount of the transaction from the
/// client's held funds and adds exactly that amount to its available funds,
/// each where the new balance can be written as an amount.
pub proof fn resolve_releases_exactly(ledger: Ledger, client: ClientId, tx: TxId)
    requires
        ledger.wf(),
        ledger.resolve(client, tx).result is Ok,
    ensures
        ({
            let before = ledger.clients[client];
            let after = ledger.resolve(client, tx).ledger;
            &&& after.wf()
            &&& ledger.clients.contains_key(client)
            &&& ledger.txs.contains_key(tx)
            &&& after.clients.contains_key(client)
            &&& writable(before.available@ + ledger.txs[tx].amount@)
                ==> after.clients[client].available@ == before.available@ + ledger.txs[tx].amount@
            &&& writable(before.held@ - ledger.txs[tx].amount@) ==> after.clients[client].held@
                == before.held@ - ledger.txs[tx].amount@
            &&& after.clients[client].locked == before.locked
            &&& after.clients.remove(client) == ledger.clients.remove(client)
            &&& after.txs == ledger.txs
        }),
{
    ledger.txs[tx].amount.lemma_negated();
    ledger.clients[client].lemma_add_held(ledger.txs[tx].amount.negated());
    let after = ledger.resolve(client, tx).ledger;
    assert(after.clients.remove(client) =~= ledger.clients.remove(client));
}

/// An accepted chargeback leaves the client's available funds as they were
/// and locks the account; where the new balance can be written as an amount,
/// it takes exactly the amount of the transaction out of the held funds.
pub proof fn chargeback_takes_exactly(ledger: Ledger, client: ClientId, tx: TxId)
    requires
        ledger.wf(),
        ledger.chargeback(client, tx).result is Ok,
    ensures
        ({
            let before = ledger.clients[client];
            let after = ledger.chargeback(client, tx).ledger;
            &&& after.wf()
            &&& ledger.clients.contains_key(client)
            &&& ledger.txs.contains_key(tx)
            &&& after.clients.contains_key(client)
            &&& writable(before.held@ - ledger.txs[tx].amount@) ==> after.clients[client].held@
                == before.held@ - ledger.txs[tx].amount@
            &&& after.clients[client].available == before.available
            &&& after.clients[client].locked
            &&& after.clients.remove(client) == ledger.clients.remove(client)
            &&& after.txs == ledger.txs
        }),
{
    ledger.clients[client].lemma_chargeback(ledger.txs[tx].amount);
    let after = ledger.chargeback(client, tx).ledger;
    assert(after.clients.remove(client) =~= ledger.clients.remove(client));
}

/// A dispute and then a resolve of the same transaction for the same client,
/// both accepted and with nothing between them, leave the client's available
/// and held funds at the values they had before the dispute, and change
/// nothing else, provided the two balances that the dispute leaves can be
/// written as amounts.
pub proof fn dispute_then_resolve_restores(ledger: Ledger, client: ClientId, tx: TxId)
    requires
        ledger.wf(),
        ledger.dispute(client, tx).result is Ok,
        ledger.dispute(client, tx).ledger.resolve(client, tx).result is Ok,
        writable(ledger.clients[client].available@ - ledger.txs[tx].amount@),
        writable(ledger.clients[client].held@ + ledger.txs[tx].amount@),
    ensures
        ({
            let before = ledger.clients[client];
            let after = ledger.dispute(client, tx).ledger.resolve(client, tx).ledger;
            &&& after.wf()
            &&& after.clients.contains_key(client)
            &&& after.clients[client].available@ == before.available@
            &&& after.clients[client].held@ == before.held@
            &&& after.clients[client].locked == before.locked
            &&& after.clients.remove(client) == ledger.clients.remove(client)
            &&& after.txs == ledger.txs
        }),
{
    dispute_holds_exactly(ledger, client, tx);
    ledger.clients[client].available.lemma_writable();
    ledger.clients[client].held.lemma_writable();
    resolve_releases_exactly(ledger.dispute(client, tx).ledger, client, tx);
}

/// A dispute and then a chargeback of the same transaction for the same
/// client, both accepted and with nothing between them: the chargeback locks
/// the account and leaves the available funds as the dispute left them.
/// Provided the two balances that the dispute leaves can be written as
/// amounts, the chargeback takes exactly the amount of the transaction out of
/// the held funds, which puts them back at their value before the dispute.
pub proof fn dispute_then_chargeback_locks(ledger: Ledger, client: ClientId, tx: TxId)
    requires
        ledger.wf(),
        ledger.dispute(client, tx).result is Ok,
        ledger.dispute(client, tx).ledger.chargeback(client, tx).result is Ok,
        writable(ledger.clients[client].available@ - ledger.txs[tx].amount@),
        writable(ledger.clients[client].held@ + ledger.txs[tx].amount@),
    ensures
        ({
            let before = ledger.clients[client];
            let disputed = ledger.dispute(client, tx).ledger;
            let after = disputed.chargeback(client, tx).ledger;
            &&& after.wf()
            &&& after.clients.contains_key(client)
            &&& after.clients[client].held@ == disputed.clients[client].held@
                - ledger.txs[tx].amount@
            &&& after.clients[client].held@ == before.held@
            &&& after.clients[client].available@ == before.available@ - ledger.txs[tx].amount@
            &&& after.clients[client].locked
            &&& after.clients.remove(client) == ledger.clients.remove(client)
            &&& after.txs == ledger.txs
        }),
{
    dispute_holds_exactly(ledger, client, tx);
    ledger.clients[client].held.lemma_writable();
    chargeback_takes_exactly(ledger.dispute(client, tx).ledger, client, tx);
}

/// Whatever record comes, applied or rejected, a locked account stays locked.
pub proof fn locked_stays_locked(ledger: Ledger, client: ClientId, record: Record)
    requires
        ledger.clients.contains_key(client),
        ledger.clients[client].locked,
    ensures
        ledger.apply(record).ledger.clients.contains_key(client),
        ledger.apply(record).ledger.clients[client].locked,
{
}

/// Whatever series of records comes, a locked account stays locked.
pub proof fn locked_stays_locked_forever(ledger: Ledger, client: ClientId, records: Seq<Record>)
    requires
        ledger.clients.contains_key(client),
        ledger.clients[client].locked,
    ensures
        ledger.run(records).clients.contains_key(client),
        ledger.run(records).clients[client].locked,
    decreases records.len(),
{
    if records.len() > 0 {
        locked_stays_locked_forever(ledger, client, records.drop_last());
        locked_stays_locked(ledger.run(records.drop_last()), client, records.last());
    }
}

/// A dispute of a transaction whose recorded amount is negative is rejected
/// and leaves the ledger as it was.
pub proof fn negative_tx_not_disputable(ledger: Ledger, client: ClientId, tx: TxId)
    requires
        ledger.txs.contains_key(tx),
        ledger.txs[tx].amount@ < 0,
    ensures
        ledger.dispute(client, tx).result is Err,
        ledger.dispute(client, tx).ledger == ledger,
        ledger.clients.contains_key(client) ==> ledger.dispute(client, tx).result == Err::<
            (),
            LedgerError,
        >(LedgerError::NotDisputable),
{
}

/// A recorded transaction is never changed or removed, whatever record comes.
pub proof fn txs_are_kept(ledger: Ledger, tx: TxId, record: Record)
    requires
        ledger.txs.contains_key(tx),
    ensures
        ledger.apply(record).ledger.txs.contains_key(tx),
        ledger.apply(record).ledger.txs[tx] == ledger.txs[tx],
{
}

/// A recorded transaction is never changed or removed, whatever series of
/// records comes.
pub proof fn txs_are_kept_forever(ledger: Ledger, tx: TxId, records: Seq<Record>)
    requires
        ledger.txs.contains_key(tx),
    ensures
        ledger.run(records).txs.contains_key(tx),
        ledger.run(records).txs[tx] == ledger.txs[tx],
    decreases records.len(),
{
    if records.len() > 0 {
        txs_are_kept_forever(ledger, tx, records.drop_last());
        txs_are_kept(ledger.run(records.drop_last()), tx, records.last());
    }
}

/// After an accepted withdrawal, and whatever records come after it, a
/// dispute of that withdrawal is rejected and leaves the ledger as it was.
/// The one withdrawal for which this is not so is a withdrawal of nothing,
/// disputed for a client that has an account: it is recorded with the amount
/// zero, which is not negative.
pub proof fn withdrawal_never_disputable(
    ledger: Ledger,
    client: ClientId,
    tx: TxId,
    amount: Amount,
    later: Seq<Record>,
    disputing: ClientId,
)
    requires
        ledger.wf(),
        amount.valid(),
        ledger.withdraw(client, tx, amount).result is Ok,
        amount@ != 0 || !ledger.withdraw(client, tx, amount).ledger.run(later).clients.contains_key(
            disputing,
        ),
    ensures
        ({
            let now = ledger.withdraw(client, tx, amount).ledger.run(later);
            &&& now.dispute(disputing, tx).result is Err
            &&& now.dispute(disputing, tx).ledger == now
        }),
{
    amount.lemma_negated();
    let withdrawn = ledger.withdraw(client, tx, amount).ledger;
    txs_are_kept_forever(withdrawn, tx, later);
}

/// A record, applied or rejected, keeps a well-formed ledger well formed: no
/// balance becomes negative.
pub proof fn apply_keeps_wf(ledger: Ledger, record: Record)
    requires
        ledger.wf(),
        record.wf(),
    ensures
        ledger.apply(record).ledger.wf(),
{
    Amount::lemma_from_parts(0, 0);
    match record {
        Record::Deposit { client, tx, amount } => {
            if ledger.deposit(client, tx, amount).result is Ok {
                ledger.client_or_new(client).lemma_add_available(amount);
            }
        },
        Record::Withdrawal { client, tx, amount } => {
            amount.lemma_negated();
            if ledger.withdraw(client, tx, amount).result is Ok {
                ledger.client_or_new(client).lemma_add_available(amount.negated());
            }
        },
        Record::Dispute { client, tx } => {
            if ledger.dispute(client, tx).result is Ok {
                ledger.clients[client].lemma_add_held(ledger.txs[tx].amount);
            }
        },
        Record::Resolve { client, tx } => {
            if ledger.resolve(client, tx).result is Ok {
                ledger.txs[tx].amount.lemma_negated();
                ledger.clients[client].lemma_add_held(ledger.txs[tx].amount.negated());
            }
        },
        Record::Chargeback { client, tx } => {
            if ledger.chargeback(client, tx).result is Ok {
                ledger.clients[client].lemma_chargeback(ledger.txs[tx].amount);
            }
        },
    }
}

/// A series of records keeps a well-formed ledger well formed: at no point
/// is a balance negative.
pub proof fn run_keeps_wf(ledger: Ledger, records: Seq<Record>)
    requires
        ledger.wf(),
        forall|i: int| 0 <= i < records.len() ==> (#[trigger] records[i]).wf(),
    ensures
        ledger.run(records).wf(),
    decreases records.len(),
{
    if records.len() > 0 {
        run_keeps_wf(ledger, records.drop_last());
        apply_keeps_wf(ledger.run(records.drop_last()), records.last());
    }
}

/// A rejected record leaves the ledger as it was.
pub proof fn rejected_changes_nothing(ledger: Ledger, record: Record)
    requires
        ledger.apply(record).result is Err,
    ensures
        ledger.apply(record).ledger == ledger,
{
}

} // verus!
