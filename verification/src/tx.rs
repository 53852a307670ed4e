//! Transaction records and their application to a database.

use crate::amount::Amount;
use crate::db::{ClientId, Database, Ledger, Step, TxId};
use crate::error::LedgerError;
use vstd::prelude::*;

verus! {

/// One entry from the transaction file.
#[derive(Clone, Copy, Debug)]
pub enum Record {
    /// A deposit into a client's account.
    Deposit { client: ClientId, tx: TxId, amount: Amount },
    /// A withdrawal from a client's account.
    Withdrawal { client: ClientId, tx: TxId, amount: Amount },
    /// A dispute of a previous transaction. Funds are held until the dispute is resolved or charged
    /// back.
    Dispute { client: ClientId, tx: TxId },
    /// Resolves a previous dispute, lifting the hold.
    Resolve { client: ClientId, tx: TxId },
    /// Resolves a previous dispute by withdrawing held funds and freezing the client's account.
    Chargeback { client: ClientId, tx: TxId },
}

/// The kind of a row of the transaction file.
#[derive(Clone, Copy, Debug, PartialEq, Eq, Structural)]
pub enum RawRecordType {
    Deposit,
    Withdrawal,
    Dispute,
    Resolve,
    Chargeback,
}

/// A row of the transaction file as it was read, before it is known to hold
/// what its kind needs.
#[derive(Clone, Copy, Debug)]
pub struct RawRecord {
    pub kind: RawRecordType,
    pub client: ClientId,
    pub tx: TxId,
    pub amount: Option<Amount>,
}

/// Why a row is not a record.
#[derive(Clone, Copy, Debug, PartialEq, Eq, Structural)]
pub enum RecordError {
    /// A deposit or a withdrawal without an amount.
    MissingAmount,
}

/// A record that was not applied, with its position in the input.
#[derive(Clone, Copy, Debug)]
pub struct Failure {
    pub index: usize,
    pub record: Record,
    pub error: LedgerError,
}

/// What processing a series of records leaves: the database, and the records
/// that were rejected, in the order of the input.
pub struct Processed {
    pub db: Database,
    pub failures: Vec<Failure>,
}

impl RawRecord {
    /// The record that the row holds. A deposit and a withdrawal need an
    /// amount; the other kinds take none, and one that is there is ignored.
    pub open spec fn record(self) -> Result<Record, RecordError> {
        match self.kind {
            RawRecordType::Deposit => match self.amount {
                Some(amount) => Ok(Record::Deposit { client: self.client, tx: self.tx, amount }),
                None => Err(RecordError::MissingAmount),
            },
            RawRecordType::Withdrawal => match self.amount {
                Some(amount) => Ok(
                    Record::Withdrawal { client: self.client, tx: self.tx, amount },
                ),
                None => Err(RecordError::MissingAmount),
            },
            RawRecordType::Dispute => Ok(Record::Dispute { client: self.client, tx: self.tx }),
            RawRecordType::Resolve => Ok(Record::Resolve { client: self.client, tx: self.tx }),
            RawRecordType::Chargeback => Ok(
                Record::Chargeback { client: self.client, tx: self.tx },
            ),
        }
    }
}

impl Ledger {
    /// What a record makes of the ledger.
    pub open spec fn apply(self, record: Record) -> Step {
        match record {
            Record::Deposit { client, tx, amount } => self.deposit(client, tx, amount),
            Record::Withdrawal { client, tx, amount } => self.withdraw(client, tx, amount),
            Record::Dispute { client, tx } => self.dispute(client, tx),
            Record::Resolve { client, tx } => self.resolve(client, tx),
            Record::Chargeback { client, tx } => self.chargeback(client, tx),
        }
    }

    /// The ledger after a series of records, each applied to what the ones
    /// before it left; a rejected record leaves the ledger as it was.
    pub open spec fn run(self, records: Seq<Record>) -> Ledger
        decreases records.len(),
    {
        if records.len() == 0 {
            self
        } else {
            self.run(records.drop_last()).apply(records.last()).ledger
        }
    }

    /// The records of a series that are rejected, in order, each with its
    /// position and the reason.
    pub open spec fn failures(self, records: Seq<Record>) -> Seq<Failure>
        decreases records.len(),
    {
        if records.len() == 0 {
            Seq::empty()
        } else {
            let before = self.failures(records.drop_last());
            match self.run(records.drop_last()).apply(records.last()).result {
                Ok(_) => before,
                Err(error) => before.push(
                    Failure { index: (records.len() - 1) as usize, record: records.last(), error },
                ),
            }
        }
    }
}

impl Record {
    /// The amount of a deposit or a withdrawal is a valid amount.
    pub open spec fn wf(self) -> bool {
        match self {
            Record::Deposit { amount, .. } => amount.valid(),
            Record::Withdrawal { amount, .. } => amount.valid(),
            _ => true,
        }
    }

    /// Turn a row into a record. Fails where a deposit or a withdrawal has no
    /// amount.
    pub fn try_from(raw: RawRecord) -> (r: Result<Record, RecordError>)
        ensures
            r == raw.record(),
    {
        match raw.kind {
            RawRecordType::Deposit => match raw.amount {
                Some(amount) => Ok(Record::Deposit { client: raw.client, tx: raw.tx, amount }),
                None => Err(RecordError::MissingAmount),
            },
            RawRecordType::Withdrawal => match raw.amount {
                Some(amount) => Ok(Record::Withdrawal { client: raw.client, tx: raw.tx, amount }),
                None => Err(RecordError::MissingAmount),
            },
            RawRecordType::Dispute => Ok(Record::Dispute { client: raw.client, tx: raw.tx }),
            RawRecordType::Resolve => Ok(Record::Resolve { client: raw.client, tx: raw.tx }),
            RawRecordType::Chargeback => Ok(Record::Chargeback { client: raw.client, tx: raw.tx }),
        }
    }

    /// Apply the record to the database. A record that is rejected changes
    /// nothing.
    pub fn apply(&self, db: &mut Database) -> (r: Result<(), LedgerError>)
        ensures
            final(db)@ == old(db)@.apply(*self).ledger,
            r == old(db)@.apply(*self).result,
            final(db)@.wf(),
    {
        match *self {
            Record::Deposit { client, tx, amount } => db.deposit(client, tx, amount),
            Record::Withdrawal { client, tx, amount } => db.withdraw(client, tx, amount),
            Record::Dispute { client, tx } => db.dispute(client, tx),
            Record::Resolve { client, tx } => db.resolve(client, tx),
            Record::Chargeback { client, tx } => db.chargeback(client, tx),
        }
    }
}

/// Turn the rows of a transaction file into records, in their order. Fails at
/// the first row that is no record, with its position and the reason.
pub fn records_of(rows: Vec<RawRecord>) -> (r: Result<Vec<Record>, (usize, RecordError)>)
    ensures
        match r {
            Ok(records) => records@.len() == rows@.len() && forall|i: int|
                0 <= i < rows@.len() ==> (#[trigger] rows@[i]).record() == Ok::<
                    Record,
                    RecordError,
                >(records@[i]),
            Err((i, e)) => i < rows@.len() && rows@[i as int].record() == Err::<
                Record,
                RecordError,
            >(e) && forall|j: int| 0 <= j < i ==> (#[trigger] rows@[j]).record() is Ok,
        },
{
    let mut records: Vec<Record> = Vec::new();
    let mut i: usize = 0;
    while i < rows.len()
        invariant
            i <= rows.len(),
            records@.len() == i,
            forall|j: int|
                0 <= j < i ==> (#[trigger] rows@[j]).record() == Ok::<Record, RecordError>(
                    records@[j],
                ),
        decreases rows.len() - i,
    {
        match Record::try_from(rows[i]) {
            Ok(record) => {
                records.push(record);
            },
            Err(e) => {
                return Err((i, e));
            },
        }
        i = i + 1;
    }
    Ok(records)
}

/// Process a series of transaction records and return the resultant database
/// of clients, their balances, and their lock status, with the records that
/// were rejected. A rejected record has no effect, and the ones after it are
/// still applied.
pub fn process(records: Vec<Record>) -> (out: Processed)
    ensures
        out.db@ == Ledger::empty().run(records@),
        out.failures@ == Ledger::empty().failures(records@),
        out.db@.wf(),
{
    let mut db = Database::new();
    let mut failures: Vec<Failure> = Vec::new();
    let mut i: usize = 0;
    while i < records.len()
        invariant
            i <= records.len(),
            db@ == Ledger::empty().run(records@.take(i as int)),
            failures@ == Ledger::empty().failures(records@.take(i as int)),
            db@.wf(),
        decreases records.len() - i,
    {
        let record = records[i];
        proof {
            let done = records@.take(i + 1);
            assert(done.drop_last() == records@.take(i as int));
            assert(done.last() == record);
        }
        match record.apply(&mut db) {
            Ok(()) => {},
            Err(error) => {
                failures.push(Failure { index: i, record, error });
            },
        }
        i = i + 1;
    }
    proof {
        assert(records@.take(records.len() as int) == records@);
    }
    Processed { db, failures }
}

} // verus!
