use ledger::account::accounts;
use ledger::amount::Amount;
use ledger::error::LedgerError;
use ledger::tx::{process, Record};

fn tenths(n: i128) -> Amount {
    Amount::new(n, 1).unwrap()
}

fn dep(client: u16, tx: u32, amount: Amount) -> Record {
    Record::Deposit { client, tx, amount }
}

fn wd(client: u16, tx: u32, amount: Amount) -> Record {
    Record::Withdrawal { client, tx, amount }
}

#[test]
fn two_deposits_add_up() {
    let out = process(vec![dep(1, 1, tenths(1000)), dep(1, 2, tenths(500))]);
    assert!(out.failures.is_empty());
    let client = out.db.get_client(1).unwrap();
    assert_eq!(client.available, Amount::new(1500000, 4).unwrap());
    assert_eq!(client.held, Amount::zero());
    assert!(!client.locked);
}

#[test]
fn second_withdrawal_overdraws_and_fails() {
    let out = process(vec![
        dep(1, 1, tenths(1000)),
        wd(1, 2, tenths(600)),
        wd(1, 3, tenths(800)),
    ]);
    assert_eq!(out.failures.len(), 1);
    assert_eq!(out.failures[0].index, 2);
    assert_eq!(out.failures[0].error, LedgerError::InsufficientFunds);
    let client = out.db.get_client(1).unwrap();
    assert_eq!(client.available, Amount::new(400000, 4).unwrap());
    assert_eq!(client.held, Amount::zero());
}

#[test]
fn dispute_resolve_dispute_chargeback_empties_and_locks() {
    let out = process(vec![
        dep(1, 1, tenths(1000)),
        Record::Dispute { client: 1, tx: 1 },
        Record::Resolve { client: 1, tx: 1 },
        Record::Dispute { client: 1, tx: 1 },
        Record::Chargeback { client: 1, tx: 1 },
    ]);
    assert!(out.failures.is_empty());
    let client = out.db.get_client(1).unwrap();
    assert_eq!(client.available, Amount::zero());
    assert_eq!(client.held, Amount::zero());
    assert!(client.locked);
}

#[test]
fn dispute_for_a_client_never_seen_creates_no_account() {
    let out = process(vec![Record::Dispute { client: 99, tx: 1 }]);
    assert_eq!(out.failures.len(), 1);
    assert_eq!(out.failures[0].index, 0);
    assert_eq!(out.failures[0].error, LedgerError::NoSuchClient);
    assert!(out.db.get_client(99).is_none());
    assert_eq!(out.db.client_count(), 0);
    assert!(accounts(&out.db).unwrap().is_empty());
}

#[test]
fn accepted_deposit_adds_exactly_its_amount() {
    let mut db = ledger::db::Database::new();
    db.deposit(1, 1, Amount::new(12345, 4).unwrap()).unwrap();
    db.deposit(1, 2, Amount::new(1, 4).unwrap()).unwrap();
    let client = db.get_client(1).unwrap();
    assert_eq!(client.available, Amount::new(12346, 4).unwrap());
    assert_ne!(client.available, Amount::new(12345, 4).unwrap());
    assert_eq!(db.deposit(2, 2, tenths(5)), Err(LedgerError::DuplicateTx));
    assert_eq!(db.withdraw(1, 2, tenths(5)), Err(LedgerError::DuplicateTx));
    assert_eq!(db.get_client(1).unwrap().available, Amount::new(12346, 4).unwrap());
    assert!(db.get_client(2).is_none());
}

#[test]
fn dispute_then_resolve_restores_both_balances() {
    let mut db = ledger::db::Database::new();
    db.deposit(1, 1, Amount::new(1005, 2).unwrap()).unwrap();
    db.deposit(1, 2, Amount::new(3, 4).unwrap()).unwrap();
    db.dispute(1, 2).unwrap();
    let before = db.get_client(1).unwrap();
    db.dispute(1, 1).unwrap();
    let during = db.get_client(1).unwrap();
    assert_eq!(during.available, Amount::zero());
    assert_eq!(during.held, Amount::new(100503, 4).unwrap());
    db.resolve(1, 1).unwrap();
    let after = db.get_client(1).unwrap();
    assert_eq!(after.available, before.available);
    assert_eq!(after.held, before.held);
    assert_eq!(after.locked, before.locked);
}

#[test]
fn dispute_then_chargeback_takes_the_amount_and_locks_for_good() {
    let mut db = ledger::db::Database::new();
    db.deposit(1, 1, tenths(1000)).unwrap();
    db.deposit(1, 2, tenths(255)).unwrap();
    db.dispute(1, 2).unwrap();
    db.chargeback(1, 2).unwrap();
    let client = db.get_client(1).unwrap();
    assert_eq!(client.available, tenths(1000));
    assert_eq!(client.held, Amount::zero());
    assert!(client.locked);
    db.deposit(1, 3, tenths(10)).unwrap();
    db.dispute(1, 1).unwrap();
    db.resolve(1, 1).unwrap();
    assert!(db.withdraw(1, 4, tenths(99999)).is_err());
    assert!(db.get_client(1).unwrap().locked);
}

#[test]
fn disputing_a_withdrawal_fails_and_changes_nothing() {
    let mut db = ledger::db::Database::new();
    db.deposit(1, 1, tenths(1000)).unwrap();
    db.withdraw(1, 2, tenths(1)).unwrap();
    db.deposit(1, 3, tenths(7)).unwrap();
    assert_eq!(db.dispute(1, 2), Err(LedgerError::NotDisputable));
    let client = db.get_client(1).unwrap();
    assert_eq!(client.available, tenths(1006));
    assert_eq!(client.held, Amount::zero());
    assert!(!client.locked);
}

#[test]
fn accounts_come_in_ascending_order_with_totals() {
    let mut db = ledger::db::Database::new();
    db.deposit(300, 1, tenths(15)).unwrap();
    db.deposit(2, 2, tenths(1000)).unwrap();
    db.deposit(65535, 3, tenths(1)).unwrap();
    db.deposit(0, 4, tenths(20)).unwrap();
    db.deposit(2, 5, Amount::new(25, 2).unwrap()).unwrap();
    db.dispute(2, 5).unwrap();
    db.dispute(300, 1).unwrap();
    db.chargeback(300, 1).unwrap();
    let rows = accounts(&db).unwrap();
    let ids: Vec<u16> = rows.iter().map(|a| a.client).collect();
    assert_eq!(ids, vec![0, 2, 300, 65535]);
    assert_eq!(rows[1].available, tenths(1000));
    assert_eq!(rows[1].held, Amount::new(25, 2).unwrap());
    assert_eq!(rows[1].total, Amount::new(10025, 2).unwrap());
    assert!(!rows[1].locked);
    assert_eq!(rows[2].available, Amount::zero());
    assert_eq!(rows[2].held, Amount::zero());
    assert_eq!(rows[2].total, Amount::zero());
    assert!(rows[2].locked);
    assert_eq!(rows[3].total, tenths(1));
}

#[test]
fn accounts_fail_where_a_total_cannot_be_written() {
    let most = Amount::new(79_228_162_514_264_337_593_543_950_335, 0).unwrap();
    let mut db = ledger::db::Database::new();
    db.deposit(1, 1, most).unwrap();
    db.dispute(1, 1).unwrap();
    db.deposit(1, 2, Amount::from_i64(1)).unwrap();
    assert_eq!(accounts(&db).unwrap_err(), LedgerError::Overflow);
    db.withdraw(1, 3, Amount::from_i64(1)).unwrap();
    let rows = accounts(&db).unwrap();
    assert_eq!(rows.len(), 1);
    assert_eq!(rows[0].total, most);
}

#[test]
fn dispute_of_a_withdrawal_of_nothing_is_accepted() {
    let mut db = ledger::db::Database::new();
    db.deposit(1, 1, tenths(1000)).unwrap();
    db.withdraw(1, 2, Amount::zero()).unwrap();
    assert_eq!(db.dispute(1, 2), Ok(()));
    assert_eq!(db.dispute(7, 2), Err(LedgerError::NoSuchClient));
    let client = db.get_client(1).unwrap();
    assert_eq!(client.available, tenths(1000));
    assert_eq!(client.held, Amount::zero());
    assert!(!client.locked);
}

#[test]
fn a_large_balance_is_reported_with_its_exact_total() {
    let mut db = ledger::db::Database::new();
    db.deposit(1, 1, Amount::new(70_000_000_000_000_000_000_000_000_000, 0).unwrap()).unwrap();
    db.deposit(1, 2, tenths(10)).unwrap();
    db.dispute(1, 2).unwrap();
    let rows = accounts(&db).unwrap();
    assert_eq!(rows.len(), 1);
    assert_eq!(rows[0].available, Amount::new(70_000_000_000_000_000_000_000_000_000, 0).unwrap());
    assert_eq!(rows[0].held, tenths(10));
    assert_eq!(rows[0].total, Amount::new(70_000_000_000_000_000_000_000_000_001, 0).unwrap());
}
