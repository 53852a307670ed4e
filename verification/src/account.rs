//! The balances to report once all records are applied.

use crate::amount::{writable, Amount};
use crate::db::{Client, ClientId, Database, Ledger};
use crate::error::LedgerError;
use vstd::prelude::*;

verus! {

/// One client's balances as they are reported: `total` is the sum of the
/// available and the held funds.
#[derive(Clone, Copy, Debug)]
pub struct Account {
    pub client: ClientId,
    pub available: Amount,
    pub held: Amount,
    pub total: Amount,
    pub locked: bool,
}

impl Account {
    /// The account that reports `client`, where rust_decimal gives a total.
    pub open spec fn of(client: Client) -> Option<Account> {
        match client.available.sum(client.held) {
            Some(total) => Some(
                Account {
                    client: client.id,
                    available: client.available,
                    held: client.held,
                    total,
                    locked: client.locked,
                },
            ),
            None => None,
        }
    }

    /// The account that reports `client`. The total is exact wherever it can
    /// be written as an amount; where it cannot, there is no account, or one
    /// with the rounded total that rust_decimal gives.
    pub fn new(client: &Client) -> (r: Option<Account>)
        ensures
            r == Self::of(*client),
            writable(client.available@ + client.held@) ==> (r matches Some(a) && a.total@
                == client.available@ + client.held@),
    {
        match client.available.checked_add(client.held) {
            Some(total) => Some(
                Account {
                    client: client.id,
                    available: client.available,
                    held: client.held,
                    total,
                    locked: client.locked,
                },
            ),
            None => None,
        }
    }
}

/// Whether rust_decimal gives a total for every client of the ledger.
pub open spec fn has_totals(ledger: Ledger) -> bool {
    forall|c: ClientId| #[trigger]
        ledger.clients.contains_key(c) ==> Account::of(ledger.clients[c]) is Some
}

/// Whether the total of every client of the ledger can be written as an
/// amount.
pub open spec fn totals_writable(ledger: Ledger) -> bool {
    forall|c: ClientId| #[trigger]
        ledger.clients.contains_key(c) ==> writable(
            ledger.clients[c].available@ + ledger.clients[c].held@,
        )
}

/// Whether `rows` reports every client of the ledger once, in ascending order
/// of client id.
pub open spec fn reports(rows: Seq<Account>, ledger: Ledger) -> bool {
    &&& forall|i: int|
        0 <= i < rows.len() ==> ledger.clients.contains_key(#[trigger] rows[i].client)
            && Account::of(ledger.clients[rows[i].client]) == Some(rows[i])
    &&& forall|i: int, j: int|
        0 <= i < j < rows.len() ==> (#[trigger] rows[i]).client < (#[trigger] rows[j]).client
    &&& forall|c: ClientId| #[trigger]
        ledger.clients.contains_key(c) ==> exists|i: int|
            0 <= i < rows.len() && (#[trigger] rows[i]).client == c
}

/// Whether every total in `rows` is the exact sum of the available and the
/// held funds.
pub open spec fn totals_exact(rows: Seq<Account>) -> bool {
    forall|i: int|
        0 <= i < rows.len() ==> (#[trigger] rows[i]).total@ == rows[i].available@ + rows[i].held@
}

/// The accounts of all clients, in ascending order of client id. Succeeds
/// wherever every total can be written as an amount, and then every total is
/// exact. Fails with `Overflow` only where rust_decimal gives no total for
/// some client.
pub fn accounts(db: &Database) -> (r: Result<Vec<Account>, LedgerError>)
    ensures
        match r {
            Ok(rows) => has_totals(db@) && reports(rows@, db@),
            Err(e) => e == LedgerError::Overflow && !has_totals(db@),
        },
        totals_writable(db@) ==> (r matches Ok(rows) && totals_exact(rows@)),
{
    let mut rows: Vec<Account> = Vec::new();
    let mut next: u32 = 0;
    while next <= 0xffff
        invariant
            next <= 0x1_0000,
            forall|i: int|
                0 <= i < rows.len() ==> db@.clients.contains_key(#[trigger] rows[i].client)
                    && Account::of(db@.clients[rows[i].client]) == Some(rows[i])
                    && rows[i].client < next,
            forall|i: int, j: int|
                0 <= i < j < rows.len() ==> (#[trigger] rows[i]).client < (#[trigger] rows[j]).client,
            forall|c: ClientId| #[trigger]
                db@.clients.contains_key(c) && c < next ==> Account::of(db@.clients[c]) is Some
                    && exists|i: int| 0 <= i < rows.len() && (#[trigger] rows[i]).client == c,
            totals_writable(db@) ==> totals_exact(rows@),
        decreases 0x1_0000 - next,
    {
        let id = next as ClientId;
        if let Some(client) = db.get_client(id) {
            match Account::new(&client) {
                Some(account) => {
                    let ghost before = rows@;
                    rows.push(account);
                    assert(forall|i: int| 0 <= i < before.len() ==> rows[i] == before[i]);
                    assert(rows[before.len() as int].client == id);
                },
                None => {
                    return Err(LedgerError::Overflow);
                },
            }
        }
        next = next + 1;
    }
    Ok(rows)
}

} // verus!
