use ledger::amount::Amount;
use ledger::error::LedgerError;
use ledger::tx::{process, records_of, RawRecord, RawRecordType, Record, RecordError};

fn dec(n: i64) -> Amount {
    Amount::from_i64(n)
}

#[test]
fn deposit() {
    let records = vec![
        Record::Deposit {
            client: 1,
            tx: 1,
            amount: dec(100),
        },
        Record::Deposit {
            client: 1,
            tx: 2,
            amount: dec(20),
        },
        Record::Deposit {
            client: 1,
            tx: 3,
            amount: dec(3),
        },
    ];
    let out = process(records);
    assert!(out.failures.is_empty());
    assert_eq!(out.db.client_count(), 1);
    let client = out.db.get_client(1).unwrap();
    assert_eq!(client.id, 1);

    assert_eq!(client.available, dec(123));
    assert_eq!(client.held, dec(0));
}

#[test]
fn tx_duplicate_tx_ids() {
    let records = vec![
        Record::Deposit {
            client: 1,
            tx: 1,
            amount: dec(100),
        },
        Record::Deposit {
            client: 1,
            tx: 1,
            amount: dec(20),
        },
        Record::Deposit {
            client: 1,
            tx: 1,
            amount: dec(3),
        },
    ];
    let out = process(records);
    assert_eq!(out.failures.len(), 2);
    assert_eq!(out.failures[0].index, 1);
    assert_eq!(out.failures[0].error, LedgerError::DuplicateTx);
    assert_eq!(out.failures[1].index, 2);
    assert_eq!(out.failures[1].error, LedgerError::DuplicateTx);
    let client = out.db.get_client(1).unwrap();
    assert_eq!(client.available, dec(100));
    assert_eq!(client.held, dec(0));
}

#[test]
fn withdrawal() {
    let records = vec![
        Record::Deposit {
            client: 1,
            tx: 1,
            amount: dec(100),
        },
        Record::Withdrawal {
            client: 1,
            tx: 2,
            amount: dec(20),
        },
        Record::Withdrawal {
            client: 1,
            tx: 3,
            amount: dec(3),
        },
    ];
    let out = process(records);
    assert!(out.failures.is_empty());
    assert_eq!(out.db.client_count(), 1);
    let client = out.db.get_client(1).unwrap();

    assert_eq!(client.available, dec(77));
    assert_eq!(client.held, dec(0));
}

#[test]
fn over_withdrawal_ignored() {
    let records = vec![
        Record::Deposit {
            client: 1,
            tx: 1,
            amount: dec(100),
        },
        Record::Withdrawal {
            client: 1,
            tx: 2,
            amount: dec(60),
        },
        Record::Withdrawal {
            client: 1,
            tx: 3,
            amount: dec(80),
        },
    ];
    let out = process(records);
    assert_eq!(out.db.client_count(), 1);
    let client = out.db.get_client(1).unwrap();

    assert_eq!(client.available, dec(40));
    assert_eq!(client.held, dec(0));

    assert_eq!(out.failures.len(), 1);
    assert_eq!(out.failures[0].index, 2);
    assert_eq!(out.failures[0].error, LedgerError::InsufficientFunds);
}

#[test]
fn dispute() {
    let records = vec![
        Record::Deposit {
            client: 1,
            tx: 1,
            amount: dec(100),
        },
        Record::Deposit {
            client: 1,
            tx: 2,
            amount: dec(50),
        },
        Record::Dispute { client: 1, tx: 1 },
    ];
    let out = process(records);
    assert!(out.failures.is_empty());
    assert_eq!(out.db.client_count(), 1);
    let client = out.db.get_client(1).unwrap();

    assert_eq!(client.available, dec(50));
    assert_eq!(client.held, dec(100));
    assert!(!client.locked);
}

#[test]
fn dispute_resolve() {
    let records = vec![
        Record::Deposit {
            client: 1,
            tx: 1,
            amount: dec(100),
        },
        Record::Deposit {
            client: 1,
            tx: 2,
            amount: dec(50),
        },
        Record::Dispute { client: 1, tx: 1 },
        Record::Resolve { client: 1, tx: 1 },
    ];
    let out = process(records);
    assert!(out.failures.is_empty());
    assert_eq!(out.db.client_count(), 1);
    let client = out.db.get_client(1).unwrap();

    assert_eq!(client.available, dec(150));
    assert_eq!(client.held, dec(0));
    assert!(!client.locked);
}

#[test]
fn process_of_nothing_leaves_an_empty_database() {
    let out = process(Vec::new());
    assert!(out.failures.is_empty());
    assert_eq!(out.db.client_count(), 0);
}

#[test]
fn process_reports_each_rejected_record_and_goes_on() {
    let records = vec![
        Record::Dispute { client: 9, tx: 1 },
        Record::Deposit {
            client: 1,
            tx: 1,
            amount: dec(-5),
        },
        Record::Deposit {
            client: 1,
            tx: 1,
            amount: dec(5),
        },
        Record::Resolve { client: 1, tx: 1 },
        Record::Chargeback { client: 1, tx: 7 },
        Record::Withdrawal {
            client: 1,
            tx: 2,
            amount: dec(2),
        },
        Record::Dispute { client: 1, tx: 2 },
    ];
    let out = process(records);
    let seen: Vec<(usize, LedgerError)> = out.failures.iter().map(|f| (f.index, f.error)).collect();
    assert_eq!(
        seen,
        vec![
            (0, LedgerError::NoSuchClient),
            (1, LedgerError::InvalidAmount),
            (3, LedgerError::InsufficientHeld),
            (4, LedgerError::NoSuchTx),
            (6, LedgerError::NotDisputable),
        ]
    );
    assert!(matches!(
        out.failures[0].record,
        Record::Dispute { client: 9, tx: 1 }
    ));
    let client = out.db.get_client(1).unwrap();
    assert_eq!(client.available, dec(3));
    assert_eq!(client.held, dec(0));
    assert!(out.db.get_client(9).is_none());
}

#[test]
fn apply_runs_one_record() {
    let mut db = ledger::db::Database::new();
    let rec = Record::Deposit {
        client: 4,
        tx: 1,
        amount: Amount::new(15, 1).unwrap(),
    };
    assert_eq!(rec.apply(&mut db), Ok(()));
    assert_eq!(rec.apply(&mut db), Err(LedgerError::DuplicateTx));
    assert_eq!(Record::Dispute { client: 4, tx: 1 }.apply(&mut db), Ok(()));
    assert_eq!(Record::Chargeback { client: 4, tx: 1 }.apply(&mut db), Ok(()));
    assert_eq!(
        Record::Resolve { client: 4, tx: 1 }.apply(&mut db),
        Err(LedgerError::InsufficientHeld)
    );
    let client = db.get_client(4).unwrap();
    assert_eq!(client.available, dec(0));
    assert_eq!(client.held, dec(0));
    assert!(client.locked);
}

fn raw(kind: RawRecordType, amount: Option<Amount>) -> RawRecord {
    RawRecord {
        kind,
        client: 3,
        tx: 12,
        amount,
    }
}

#[test]
fn rows_with_what_their_kind_needs_are_records() {
    assert!(matches!(
        Record::try_from(raw(RawRecordType::Deposit, Some(dec(5)))),
        Ok(Record::Deposit { client: 3, tx: 12, amount }) if amount == dec(5)
    ));
    assert!(matches!(
        Record::try_from(raw(RawRecordType::Withdrawal, Some(dec(6)))),
        Ok(Record::Withdrawal { client: 3, tx: 12, amount }) if amount == dec(6)
    ));
    assert!(matches!(
        Record::try_from(raw(RawRecordType::Dispute, None)),
        Ok(Record::Dispute { client: 3, tx: 12 })
    ));
    assert!(matches!(
        Record::try_from(raw(RawRecordType::Resolve, None)),
        Ok(Record::Resolve { client: 3, tx: 12 })
    ));
    assert!(matches!(
        Record::try_from(raw(RawRecordType::Chargeback, None)),
        Ok(Record::Chargeback { client: 3, tx: 12 })
    ));
    assert!(matches!(
        Record::try_from(raw(RawRecordType::Dispute, Some(dec(1)))),
        Ok(Record::Dispute { client: 3, tx: 12 })
    ));
}

#[test]
fn deposit_or_withdrawal_without_amount_is_no_record() {
    assert!(matches!(
        Record::try_from(raw(RawRecordType::Deposit, None)),
        Err(RecordError::MissingAmount)
    ));
    assert!(matches!(
        Record::try_from(raw(RawRecordType::Withdrawal, None)),
        Err(RecordError::MissingAmount)
    ));
}

#[test]
fn rows_become_records_in_their_order() {
    let rows = vec![
        raw(RawRecordType::Deposit, Some(dec(5))),
        raw(RawRecordType::Dispute, None),
        raw(RawRecordType::Withdrawal, Some(dec(2))),
    ];
    let records = records_of(rows).unwrap();
    assert_eq!(records.len(), 3);
    assert!(matches!(records[0], Record::Deposit { client: 3, tx: 12, amount } if amount == dec(5)));
    assert!(matches!(records[1], Record::Dispute { client: 3, tx: 12 }));
    assert!(matches!(records[2], Record::Withdrawal { client: 3, tx: 12, amount } if amount == dec(2)));
    assert!(records_of(Vec::new()).unwrap().is_empty());
}

#[test]
fn the_first_row_that_is_no_record_stops_the_reading() {
    let rows = vec![
        raw(RawRecordType::Deposit, Some(dec(5))),
        raw(RawRecordType::Resolve, None),
        raw(RawRecordType::Withdrawal, None),
        raw(RawRecordType::Deposit, None),
    ];
    assert!(matches!(records_of(rows), Err((2, RecordError::MissingAmount))));
}
