//! Clients, recorded transactions and the database that holds both.

use crate::amount::{writable, Amount};
use crate::error::LedgerError;
use std::collections::HashMap;
use vstd::prelude::*;

verus! {

/// Client ID.
pub type ClientId = u16;

/// Transaction ID.
pub type TxId = u32;

/// A client's funds and account status.
#[derive(Clone, Copy, Debug)]
pub struct Client {
    pub id: ClientId,
    pub available: Amount,
    pub held: Amount,
    pub locked: bool,
}

impl Client {
    /// Both balances are valid amounts and neither is negative.
    pub open spec fn wf(self) -> bool {
        &&& self.available.valid()
        &&& self.held.valid()
        &&& self.available@ >= 0
        &&& self.held@ >= 0
    }

    /// The account a client has before anything was credited to it.
    pub open spec fn fresh(id: ClientId) -> Client {
        Client {
            id,
            available: Amount::from_parts(0, 0),
            held: Amount::from_parts(0, 0),
            locked: false,
        }
    }

    /// A balance as it is stored: the result of rust_decimal where there is
    /// one and it is not negative.
    pub open spec fn balance(computed: Option<Amount>) -> Option<Amount> {
        match computed {
            Some(v) => if v@ < 0 {
                None
            } else {
                Some(v)
            },
            None => None,
        }
    }

    /// What `add_available` makes of the client.
    pub open spec fn after_add_available(self, amount: Amount) -> Result<Client, LedgerError> {
        if self.available@ + amount@ < 0 {
            Err(LedgerError::InsufficientFunds)
        } else {
            match Self::balance(self.available.sum(amount)) {
                Some(available) => Ok(Client { available, ..self }),
                None => Err(LedgerError::Overflow),
            }
        }
    }

    /// What `add_held` makes of the client.
    pub open spec fn after_add_held(self, amount: Amount) -> Result<Client, LedgerError> {
        if self.available@ - amount@ < 0 {
            Err(LedgerError::InsufficientFunds)
        } else if self.held@ + amount@ < 0 {
            Err(LedgerError::InsufficientHeld)
        } else {
            match (
                Self::balance(self.available.difference(amount)),
                Self::balance(self.held.sum(amount)),
            ) {
                (Some(available), Some(held)) => Ok(Client { available, held, ..self }),
                _ => Err(LedgerError::Overflow),
            }
        }
    }

    /// What `deposit` makes of the client.
    pub open spec fn after_deposit(self, amount: Amount) -> Result<Client, LedgerError> {
        if amount@ < 0 {
            Err(LedgerError::InvalidAmount)
        } else {
            self.after_add_available(amount)
        }
    }

    /// What `withdraw` makes of the client.
    pub open spec fn after_withdraw(self, amount: Amount) -> Result<Client, LedgerError> {
        if amount@ < 0 {
            Err(LedgerError::InvalidAmount)
        } else {
            self.after_add_available(amount.negated())
        }
    }

    /// What `hold` makes of the client.
    pub open spec fn after_hold(self, amount: Amount) -> Result<Client, LedgerError> {
        if amount@ < 0 {
            Err(LedgerError::InvalidAmount)
        } else {
            self.after_add_held(amount)
        }
    }

    /// What `release` makes of the client.
    pub open spec fn after_release(self, amount: Amount) -> Result<Client, LedgerError> {
        if amount@ < 0 {
            Err(LedgerError::InvalidAmount)
        } else {
            self.after_add_held(amount.negated())
        }
    }

    /// What `chargeback` makes of the client.
    pub open spec fn after_chargeback(self, amount: Amount) -> Result<Client, LedgerError> {
        if amount@ < 0 {
            Err(LedgerError::InvalidAmount)
        } else if self.held@ - amount@ < 0 {
            Err(LedgerError::InsufficientHeld)
        } else {
            match Self::balance(self.held.difference(amount)) {
                Some(held) => Ok(Client { held, locked: true, ..self }),
                None => Err(LedgerError::Overflow),
            }
        }
    }

    /// A client with no funds.
    pub fn new(id: ClientId) -> (r: Client)
        ensures
            r == Self::fresh(id),
            r.wf(),
            r.available@ == 0,
            r.held@ == 0,
    {
        proof {
            Amount::lemma_from_parts(0, 0);
        }
        Client { id, available: Amount::zero(), held: Amount::zero(), locked: false }
    }

    /// Add `amount` to the available funds: a credit where it is positive, a
    /// debit where it is negative. Fails with `InsufficientFunds`, and changes
    /// nothing, where that would debit more than is available. Succeeds
    /// wherever the new balance is not negative and can be written as an
    /// amount, and then the new balance is exact; where it cannot be written,
    /// fails with `Overflow` or stores the rounded balance that rust_decimal
    /// gives.
    pub fn add_available(&mut self, amount: Amount) -> (r: Result<(), LedgerError>)
        ensures
            match old(self).after_add_available(amount) {
                Ok(c) => r is Ok && *final(self) == c,
                Err(e) => r == Err::<(), LedgerError>(e) && *final(self) == *old(self),
            },
            old(self).wf() ==> final(self).wf(),
            old(self).available@ + amount@ >= 0 && writable(old(self).available@ + amount@) ==> r is Ok
                && final(self).available@ == old(self).available@ + amount@,
    {
        proof {
            use_type_invariant(&amount);
        }
        if self.available.lt(&amount.neg()) {
            return Err(LedgerError::InsufficientFunds);
        }
        match Self::checked(self.available.checked_add(amount)) {
            Some(available) => {
                self.available = available;
                Ok(())
            },
            None => Err(LedgerError::Overflow),
        }
    }

    /// A computed balance, unless there is none or it is negative.
    fn checked(computed: Option<Amount>) -> (r: Option<Amount>)
        ensures
            r == Self::balance(computed),
            r matches Some(v) ==> v.valid() && v@ >= 0,
    {
        match computed {
            Some(v) => {
                proof {
                    use_type_invariant(&v);
                }
                if v.is_negative() {
                    None
                } else {
                    Some(v)
                }
            },
            None => None,
        }
    }

    /// Move `amount` from the available funds to the held funds, or back
    /// where it is negative. Fails, and changes nothing, with
    /// `InsufficientFunds` where that would hold more than is available, else
    /// with `InsufficientHeld` where it would release more than is held.
    /// Succeeds wherever both new balances are not negative and can be written
    /// as amounts, and then both are exact.
    pub fn add_held(&mut self, amount: Amount) -> (r: Result<(), LedgerError>)
        ensures
            match old(self).after_add_held(amount) {
                Ok(c) => r is Ok && *final(self) == c,
                Err(e) => r == Err::<(), LedgerError>(e) && *final(self) == *old(self),
            },
            old(self).wf() ==> final(self).wf(),
            ({
                let available = old(self).available@ - amount@;
                let held = old(self).held@ + amount@;
                available >= 0 && held >= 0 && writable(available) && writable(held) ==> r is Ok
                    && final(self).available@ == available && final(self).held@ == held
            }),
    {
        proof {
            use_type_invariant(&amount);
        }
        if self.available.lt(&amount) {
            return Err(LedgerError::InsufficientFunds);
        }
        if self.held.lt(&amount.neg()) {
            return Err(LedgerError::InsufficientHeld);
        }
        match (
            Self::checked(self.available.checked_sub(amount)),
            Self::checked(self.held.checked_add(amount)),
        ) {
            (Some(available), Some(held)) => {
                self.available = available;
                self.held = held;
                Ok(())
            },
            _ => Err(LedgerError::Overflow),
        }
    }

    /// Credit `amount`, which must not be negative, to the available funds.
    pub fn deposit(&mut self, amount: Amount) -> (r: Result<(), LedgerError>)
        ensures
            match old(self).after_deposit(amount) {
                Ok(c) => r is Ok && *final(self) == c,
                Err(e) => r == Err::<(), LedgerError>(e) && *final(self) == *old(self),
            },
            old(self).wf() ==> final(self).wf(),
            amount@ >= 0 && old(self).available@ >= 0 && writable(old(self).available@ + amount@)
                ==> r is Ok && final(self).available@ == old(self).available@ + amount@,
    {
        if amount.is_negative() {
            return Err(LedgerError::InvalidAmount);
        }
        self.add_available(amount)
    }

    /// Debit `amount`, which must not be negative, from the available funds.
    /// Fails where it is more than is available.
    pub fn withdraw(&mut self, amount: Amount) -> (r: Result<(), LedgerError>)
        ensures
            match old(self).after_withdraw(amount) {
                Ok(c) => r is Ok && *final(self) == c,
                Err(e) => r == Err::<(), LedgerError>(e) && *final(self) == *old(self),
            },
            old(self).wf() ==> final(self).wf(),
            0 <= amount@ <= old(self).available@ && writable(old(self).available@ - amount@) ==> r is Ok
                && final(self).available@ == old(self).available@ - amount@,
    {
        if amount.is_negative() {
            return Err(LedgerError::InvalidAmount);
        }
        self.add_available(amount.neg())
    }

    /// Move `amount`, which must not be negative, from the available funds to
    /// the held funds. Fails where it is more than is available.
    pub fn hold(&mut self, amount: Amount) -> (r: Result<(), LedgerError>)
        ensures
            match old(self).after_hold(amount) {
                Ok(c) => r is Ok && *final(self) == c,
                Err(e) => r == Err::<(), LedgerError>(e) && *final(self) == *old(self),
            },
            old(self).wf() ==> final(self).wf(),
            ({
                let available = old(self).available@ - amount@;
                let held = old(self).held@ + amount@;
                0 <= amount@ <= old(self).available@ && old(self).held@ >= 0 && writable(available)
                    && writable(held) ==> r is Ok && final(self).available@ == available && final(self).held@
                    == held
            }),
    {
        if amount.is_negative() {
            return Err(LedgerError::InvalidAmount);
        }
        self.add_held(amount)
    }

    /// Move `amount`, which must not be negative, from the held funds back to
    /// the available funds. Fails where it is more than is held.
    pub fn release(&mut self, amount: Amount) -> (r: Result<(), LedgerError>)
        ensures
            match old(self).after_release(amount) {
                Ok(c) => r is Ok && *final(self) == c,
                Err(e) => r == Err::<(), LedgerError>(e) && *final(self) == *old(self),
            },
            old(self).wf() ==> final(self).wf(),
            ({
                let available = old(self).available@ + amount@;
                let held = old(self).held@ - amount@;
                0 <= amount@ <= old(self).held@ && old(self).available@ >= 0 && writable(available)
                    && writable(held) ==> r is Ok && final(self).available@ == available && final(self).held@
                    == held
            }),
    {
        if amount.is_negative() {
            return Err(LedgerError::InvalidAmount);
        }
        self.add_held(amount.neg())
    }

    /// Take `amount`, which must not be negative, out of the held funds and
    /// lock the account. Fails where it is more than is held.
    pub fn chargeback(&mut self, amount: Amount) -> (r: Result<(), LedgerError>)
        ensures
            match old(self).after_chargeback(amount) {
                Ok(c) => r is Ok && *final(self) == c,
                Err(e) => r == Err::<(), LedgerError>(e) && *final(self) == *old(self),
            },
            old(self).wf() ==> final(self).wf(),
            0 <= amount@ <= old(self).held@ && writable(old(self).held@ - amount@) ==> r is Ok
                && final(self).held@ == old(self).held@ - amount@,
    {
        if amount.is_negative() {
            return Err(LedgerError::InvalidAmount);
        }
        if self.held.lt(&amount) {
            return Err(LedgerError::InsufficientHeld);
        }
        match Self::checked(self.held.checked_sub(amount)) {
            Some(held) => {
                self.held = held;
                self.locked = true;
                Ok(())
            },
            None => Err(LedgerError::Overflow),
        }
    }
}

impl Client {
    /// A successful `add_available` keeps a well-formed client well formed,
    /// changes nothing but its available funds, and changes those by exactly
    /// `amount` where the new balance can be written as an amount.
    pub proof fn lemma_add_available(self, amount: Amount)
        requires
            self.after_add_available(amount) is Ok,
        ensures
            self.wf() ==> self.after_add_available(amount).unwrap().wf(),
            writable(self.available@ + amount@) ==> self.after_add_available(
                amount,
            ).unwrap().available@ == self.available@ + amount@,
            self.after_add_available(amount).unwrap().held == self.held,
            self.after_add_available(amount).unwrap().locked == self.locked,
            self.after_add_available(amount).unwrap().id == self.id,
    {
        self.available.lemma_sum(amount);
    }

    /// A successful `add_held` keeps a well-formed client well formed,
    /// changes nothing but its funds, and moves exactly `amount` from the
    /// available to the held funds where both new balances can be written as
    /// amounts.
    pub proof fn lemma_add_held(self, amount: Amount)
        requires
            self.after_add_held(amount) is Ok,
        ensures
            self.wf() ==> self.after_add_held(amount).unwrap().wf(),
            writable(self.available@ - amount@) ==> self.after_add_held(amount).unwrap().available@
                == self.available@ - amount@,
            writable(self.held@ + amount@) ==> self.after_add_held(amount).unwrap().held@
                == self.held@ + amount@,
            self.after_add_held(amount).unwrap().locked == self.locked,
            self.after_add_held(amount).unwrap().id == self.id,
    {
        self.available.lemma_difference(amount);
        self.held.lemma_sum(amount);
    }

    /// A successful `chargeback` keeps a well-formed client well formed,
    /// locks the account, leaves the available funds, and takes exactly
    /// `amount` out of the held funds where the new balance can be written as
    /// an amount.
    pub proof fn lemma_chargeback(self, amount: Amount)
        requires
            self.after_chargeback(amount) is Ok,
        ensures
            self.wf() ==> self.after_chargeback(amount).unwrap().wf(),
            writable(self.held@ - amount@) ==> self.after_chargeback(amount).unwrap().held@
                == self.held@ - amount@,
            self.after_chargeback(amount).unwrap().available == self.available,
            self.after_chargeback(amount).unwrap().locked,
            self.after_chargeback(amount).unwrap().id == self.id,
    {
        self.held.lemma_difference(amount);
    }
}

/// A deposit or withdrawal. A positive `amount` is a deposit, negative a withdrawal.
#[derive(Clone, Copy, Debug)]
pub struct Tx {
    pub id: TxId,
    pub amount: Amount,
}

impl Tx {
    /// The record of a transaction of `amount`.
    pub fn new(id: TxId, amount: Amount) -> (r: Tx)
        ensures
            r == (Tx { id, amount }),
    {
        Tx { id, amount }
    }
}

/// The state of a ledger: the account of every client that has one, and
/// every recorded transaction.
pub ghost struct Ledger {
    pub clients: Map<ClientId, Client>,
    pub txs: Map<TxId, Tx>,
}

/// The ledger after a record, and whether the record was applied.
pub ghost struct Step {
    pub ledger: Ledger,
    pub result: Result<(), LedgerError>,
}

/// Every client is stored under its id, with balances that are not negative.
pub open spec fn clients_wf(clients: Map<ClientId, Client>) -> bool {
    forall|c: ClientId| #[trigger] clients.contains_key(c) ==> clients[c].id == c && clients[c].wf()
}

/// Every transaction is stored under its id, with a valid amount.
pub open spec fn txs_wf(txs: Map<TxId, Tx>) -> bool {
    forall|t: TxId| #[trigger] txs.contains_key(t) ==> txs[t].id == t && txs[t].amount.valid()
}

impl Ledger {
    /// Every client is stored under its id with balances that are not
    /// negative, and every transaction under its id.
    pub open spec fn wf(self) -> bool {
        clients_wf(self.clients) && txs_wf(self.txs)
    }

    /// The ledger with no client and no transaction.
    pub open spec fn empty() -> Ledger {
        Ledger { clients: Map::empty(), txs: Map::empty() }
    }

    /// The client's account, or the one it would start with.
    pub open spec fn client_or_new(self, client: ClientId) -> Client {
        if self.clients.contains_key(client) {
            self.clients[client]
        } else {
            Client::fresh(client)
        }
    }

    /// A record that was not applied: nothing changes.
    pub open spec fn rejected(self, e: LedgerError) -> Step {
        Step { ledger: self, result: Err(e) }
    }

    /// A record that was applied: the client `id` now has the account
    /// `client`.
    pub open spec fn updated(self, id: ClientId, client: Client) -> Step {
        Step { ledger: Ledger { clients: self.clients.insert(id, client), ..self }, result: Ok(()) }
    }

    /// A record that was applied and recorded: the client `id` now has the
    /// account `client`, and the transaction `tx` holds `amount`.
    pub open spec fn recorded(self, id: ClientId, client: Client, tx: TxId, amount: Amount) -> Step {
        Step {
            ledger: Ledger {
                clients: self.clients.insert(id, client),
                txs: self.txs.insert(tx, Tx { id: tx, amount }),
            },
            result: Ok(()),
        }
    }

    /// What a deposit makes of the ledger.
    pub open spec fn deposit(self, client: ClientId, tx: TxId, amount: Amount) -> Step {
        if self.txs.contains_key(tx) {
            self.rejected(LedgerError::DuplicateTx)
        } else {
            match self.client_or_new(client).after_deposit(amount) {
                Ok(c) => self.recorded(client, c, tx, amount),
                Err(e) => self.rejected(e),
            }
        }
    }

    /// What a withdrawal makes of the ledger.
    pub open spec fn withdraw(self, client: ClientId, tx: TxId, amount: Amount) -> Step {
        if self.txs.contains_key(tx) {
            self.rejected(LedgerError::DuplicateTx)
        } else {
            match self.client_or_new(client).after_withdraw(amount) {
                Ok(c) => self.recorded(client, c, tx, amount.negated()),
                Err(e) => self.rejected(e),
            }
        }
    }

    /// The client and the transaction that a dispute, resolve or chargeback
    /// names, where both exist.
    pub open spec fn lookup(self, client: ClientId, tx: TxId) -> Result<(Client, Tx), LedgerError> {
        if !self.clients.contains_key(client) {
            Err(LedgerError::NoSuchClient)
        } else if !self.txs.contains_key(tx) {
            Err(LedgerError::NoSuchTx)
        } else {
            Ok((self.clients[client], self.txs[tx]))
        }
    }

    /// What a dispute makes of the ledger.
    pub open spec fn dispute(self, client: ClientId, tx: TxId) -> Step {
        match self.lookup(client, tx) {
            Ok((c, t)) => if t.amount@ < 0 {
                self.rejected(LedgerError::NotDisputable)
            } else {
                match c.after_hold(t.amount) {
                    Ok(c) => self.updated(client, c),
                    Err(e) => self.rejected(e),
                }
            },
            Err(e) => self.rejected(e),
        }
    }

    /// What a resolve makes of the ledger.
    pub open spec fn resolve(self, client: ClientId, tx: TxId) -> Step {
        match self.lookup(client, tx) {
            Ok((c, t)) => if t.amount@ < 0 {
                self.rejected(LedgerError::NotDisputable)
            } else {
                match c.after_release(t.amount) {
                    Ok(c) => self.updated(client, c),
                    Err(e) => self.rejected(e),
                }
            },
            Err(e) => self.rejected(e),
        }
    }

    /// What a chargeback makes of the ledger.
    pub open spec fn chargeback(self, client: ClientId, tx: TxId) -> Step {
        match self.lookup(client, tx) {
            Ok((c, t)) => if t.amount@ < 0 {
                self.rejected(LedgerError::NotDisputable)
            } else {
                match c.after_chargeback(t.amount) {
                    Ok(c) => self.updated(client, c),
                    Err(e) => self.rejected(e),
                }
            },
            Err(e) => self.rejected(e),
        }
    }

    /// Whether the rules ask that the deposit be accepted: its id is new, its
    /// amount is not negative, and the new balance can be written as an
    /// amount.
    pub open spec fn takes_deposit(self, client: ClientId, tx: TxId, amount: Amount) -> bool {
        &&& !self.txs.contains_key(tx)
        &&& amount@ >= 0
        &&& writable(self.client_or_new(client).available@ + amount@)
    }

    /// Whether the rules ask that the withdrawal be accepted: its id is new,
    /// its amount is not negative and not more than the client has available,
    /// and the new balance can be written as an amount.
    pub open spec fn takes_withdrawal(self, client: ClientId, tx: TxId, amount: Amount) -> bool {
        &&& !self.txs.contains_key(tx)
        &&& 0 <= amount@ <= self.client_or_new(client).available@
        &&& writable(self.client_or_new(client).available@ - amount@)
    }

    /// Whether the rules ask that the dispute be accepted: the client has an
    /// account, the transaction is a recorded deposit of not more than the
    /// client has available, and both new balances can be written as amounts.
    pub open spec fn takes_dispute(self, client: ClientId, tx: TxId) -> bool {
        &&& self.clients.contains_key(client)
        &&& self.txs.contains_key(tx)
        &&& 0 <= self.txs[tx].amount@ <= self.clients[client].available@
        &&& writable(self.clients[client].available@ - self.txs[tx].amount@)
        &&& writable(self.clients[client].held@ + self.txs[tx].amount@)
    }

    /// Whether the rules ask that the resolve be accepted: the client has an
    /// account, the transaction is a recorded deposit of not more than the
    /// client has held, and both new balances can be written as amounts.
    pub open spec fn takes_resolve(self, client: ClientId, tx: TxId) -> bool {
        &&& self.clients.contains_key(client)
        &&& self.txs.contains_key(tx)
        &&& 0 <= self.txs[tx].amount@ <= self.clients[client].held@
        &&& writable(self.clients[client].available@ + self.txs[tx].amount@)
        &&& writable(self.clients[client].held@ - self.txs[tx].amount@)
    }

    /// Whether the rules ask that the chargeback be accepted: the client has
    /// an account, the transaction is a recorded deposit of not more than the
    /// client has held, and the new balance can be written as an amount.
    pub open spec fn takes_chargeback(self, client: ClientId, tx: TxId) -> bool {
        &&& self.clients.contains_key(client)
        &&& self.txs.contains_key(tx)
        &&& 0 <= self.txs[tx].amount@ <= self.clients[client].held@
        &&& writable(self.clients[client].held@ - self.txs[tx].amount@)
    }
}

/// The accounts of all clients and the transactions recorded so far.
pub struct Database {
    clients: HashMap<ClientId, Client>,
    txs: HashMap<TxId, Tx>,
}

impl View for Database {
    type V = Ledger;

    closed spec fn view(&self) -> Ledger {
        Ledger { clients: self.clients@, txs: self.txs@ }
    }
}

impl Database {
    #[verifier::type_invariant]
    spec fn inv(self) -> bool {
        clients_wf(self.clients@) && txs_wf(self.txs@)
    }

    /// A database with no client and no transaction.
    pub fn new() -> (r: Database)
        ensures
            r@ == Ledger::empty(),
            r@.wf(),
    {
        Database { clients: HashMap::new(), txs: HashMap::new() }
    }

    /// How many clients have an account.
    pub fn client_count(&self) -> (r: usize)
        ensures
            r == self@.clients.len(),
    {
        self.clients.len()
    }

    /// The client's account, if it has one.
    pub fn get_client(&self, id: ClientId) -> (r: Option<Client>)
        ensures
            self@.wf(),
            r == (if self@.clients.contains_key(id) {
                Some(self@.clients[id])
            } else {
                None
            }),
    {
        proof {
            use_type_invariant(self);
        }
        match self.clients.get(&id) {
            Some(c) => Some(*c),
            None => None,
        }
    }

    /// The recorded transaction, if there is one with this id.
    pub fn get_tx(&self, id: TxId) -> (r: Option<Tx>)
        ensures
            self@.wf(),
            r == (if self@.txs.contains_key(id) {
                Some(self@.txs[id])
            } else {
                None
            }),
    {
        proof {
            use_type_invariant(self);
        }
        match self.txs.get(&id) {
            Some(t) => Some(*t),
            None => None,
        }
    }

    /// Credit `amount` to the client's available funds and record the
    /// transaction; the client gets an account if it has none. Rejected with
    /// `DuplicateTx` where the transaction id is already recorded, else with
    /// `InvalidAmount` where the amount is negative. Else it is accepted
    /// wherever the new balance can be written as an amount, and the balance
    /// is then exact; where it cannot be written, the deposit is rejected
    /// with `Overflow` or credited as rust_decimal rounds it. A rejected
    /// deposit changes nothing.
    pub fn deposit(&mut self, client_id: ClientId, tx_id: TxId, amount: Amount) -> (r: Result<
        (),
        LedgerError,
    >)
        ensures
            final(self)@ == old(self)@.deposit(client_id, tx_id, amount).ledger,
            r == old(self)@.deposit(client_id, tx_id, amount).result,
            final(self)@.wf(),
            ({
                let before = old(self)@.client_or_new(client_id);
                let after = final(self)@.clients[client_id];
                old(self)@.takes_deposit(client_id, tx_id, amount) ==> r is Ok && after.available@
                    == before.available@ + amount@
            }),
    {
        proof {
            use_type_invariant(&*self);
            use_type_invariant(&amount);
        }
        if self.txs.contains_key(&tx_id) {
            return Err(LedgerError::DuplicateTx);
        }
        let mut client = self.client(client_id);
        match client.deposit(amount) {
            Ok(()) => {
                self.put_client(client);
                self.put_tx(Tx::new(tx_id, amount));
                Ok(())
            },
            Err(e) => Err(e),
        }
    }

    /// Debit `amount` from the client's available funds and record the
    /// transaction with the negated amount. Rejected with `DuplicateTx` where
    /// the transaction id is already recorded, else with `InvalidAmount`
    /// where the amount is negative, else with `InsufficientFunds` where it is
    /// more than the client has available (a client without an account has
    /// nothing). Else it is accepted wherever the new balance can be written
    /// as an amount, and the balance is then exact; where it cannot be
    /// written, the withdrawal is rejected with `Overflow` or debited as
    /// rust_decimal rounds it. A rejected withdrawal changes nothing, and
    /// opens no account.
    pub fn withdraw(&mut self, client_id: ClientId, tx_id: TxId, amount: Amount) -> (r: Result<
        (),
        LedgerError,
    >)
        ensures
            final(self)@ == old(self)@.withdraw(client_id, tx_id, amount).ledger,
            r == old(self)@.withdraw(client_id, tx_id, amount).result,
            final(self)@.wf(),
            ({
                let before = old(self)@.client_or_new(client_id);
                let after = final(self)@.clients[client_id];
                old(self)@.takes_withdrawal(client_id, tx_id, amount) ==> r is Ok
                    && after.available@ == before.available@ - amount@
            }),
    {
        proof {
            use_type_invariant(&*self);
            use_type_invariant(&amount);
        }
        if self.txs.contains_key(&tx_id) {
            return Err(LedgerError::DuplicateTx);
        }
        let mut client = self.client(client_id);
        proof {
            amount.lemma_negated();
        }
        match client.withdraw(amount) {
            Ok(()) => {
                self.put_client(client);
                self.put_tx(Tx::new(tx_id, amount.neg()));
                Ok(())
            },
            Err(e) => Err(e),
        }
    }

    /// Move the amount of a recorded deposit from the client's available
    /// funds to its held funds. Rejected with `NoSuchClient` where the client
    /// has no account, else with `NoSuchTx` where the transaction is not
    /// recorded, else with `NotDisputable` where its amount is negative, else
    /// with `InsufficientFunds` where the amount is more than the client has
    /// available. Else it is accepted wherever both new balances can be
    /// written as amounts, and they are then exact; where one cannot be
    /// written, the dispute is rejected with `Overflow` or applied as
    /// rust_decimal rounds. A rejected dispute changes nothing.
    ///
    /// Whether the transaction is under dispute is not tracked, and a locked
    /// account takes records like any other.
    pub fn dispute(&mut self, client_id: ClientId, tx_id: TxId) -> (r: Result<(), LedgerError>)
        ensures
            final(self)@ == old(self)@.dispute(client_id, tx_id).ledger,
            r == old(self)@.dispute(client_id, tx_id).result,
            final(self)@.wf(),
            ({
                let before = old(self)@.clients[client_id];
                let after = final(self)@.clients[client_id];
                let amount = old(self)@.txs[tx_id].amount;
                old(self)@.takes_dispute(client_id, tx_id) ==> r is Ok && after.available@
                    == before.available@ - amount@ && after.held@ == before.held@ + amount@
            }),
    {
        proof {
            use_type_invariant(&*self);
        }
        let (mut client, tx) = match self.lookup(client_id, tx_id) {
            Ok(found) => found,
            Err(e) => {
                return Err(e);
            },
        };
        if tx.amount.is_negative() {
            return Err(LedgerError::NotDisputable);
        }
        match client.hold(tx.amount) {
            Ok(()) => {
                self.put_client(client);
                Ok(())
            },
            Err(e) => Err(e),
        }
    }

    /// Move the amount of a recorded deposit from the client's held funds
    /// back to its available funds. Rejected as a dispute is where the
    /// client, the transaction or its sign is wrong, else with
    /// `InsufficientHeld` where the amount is more than the client has held.
    /// Else it is accepted wherever both new balances can be written as
    /// amounts, and they are then exact. A rejected resolve changes nothing.
    pub fn resolve(&mut self, client_id: ClientId, tx_id: TxId) -> (r: Result<(), LedgerError>)
        ensures
            final(self)@ == old(self)@.resolve(client_id, tx_id).ledger,
            r == old(self)@.resolve(client_id, tx_id).result,
            final(self)@.wf(),
            ({
                let before = old(self)@.clients[client_id];
                let after = final(self)@.clients[client_id];
                let amount = old(self)@.txs[tx_id].amount;
                old(self)@.takes_resolve(client_id, tx_id) ==> r is Ok && after.available@
                    == before.available@ + amount@ && after.held@ == before.held@ - amount@
            }),
    {
        proof {
            use_type_invariant(&*self);
        }
        let (mut client, tx) = match self.lookup(client_id, tx_id) {
            Ok(found) => found,
            Err(e) => {
                return Err(e);
            },
        };
        if tx.amount.is_negative() {
            return Err(LedgerError::NotDisputable);
        }
        match client.release(tx.amount) {
            Ok(()) => {
                self.put_client(client);
                Ok(())
            },
            Err(e) => Err(e),
        }
    }

    /// Take the amount of a recorded deposit out of the client's held funds
    /// and lock the account for good. Rejected as a dispute is where the
    /// client, the transaction or its sign is wrong, else with
    /// `InsufficientHeld` where the amount is more than the client has held.
    /// Else it is accepted wherever the new balance can be written as an
    /// amount, and it is then exact. A rejected chargeback changes nothing.
    pub fn chargeback(&mut self, client_id: ClientId, tx_id: TxId) -> (r: Result<(), LedgerError>)
        ensures
            final(self)@ == old(self)@.chargeback(client_id, tx_id).ledger,
            r == old(self)@.chargeback(client_id, tx_id).result,
            final(self)@.wf(),
            ({
                let before = old(self)@.clients[client_id];
                let after = final(self)@.clients[client_id];
                let amount = old(self)@.txs[tx_id].amount;
                old(self)@.takes_chargeback(client_id, tx_id) ==> r is Ok && after.held@
                    == before.held@ - amount@
            }),
    {
        proof {
            use_type_invariant(&*self);
        }
        let (mut client, tx) = match self.lookup(client_id, tx_id) {
            Ok(found) => found,
            Err(e) => {
                return Err(e);
            },
        };
        if tx.amount.is_negative() {
            return Err(LedgerError::NotDisputable);
        }
        match client.chargeback(tx.amount) {
            Ok(()) => {
                self.put_client(client);
                Ok(())
            },
            Err(e) => Err(e),
        }
    }

    /// The client and the transaction that a dispute, resolve or chargeback
    /// names. Fails where the client has no account or the transaction is not
    /// recorded.
    fn lookup(&self, client_id: ClientId, tx_id: TxId) -> (r: Result<(Client, Tx), LedgerError>)
        ensures
            r == self@.lookup(client_id, tx_id),
            r matches Ok(found) ==> found.0.wf() && found.0.id == client_id && found.1.id == tx_id
                && found.1.amount.valid(),
    {
        proof {
            use_type_invariant(self);
        }
        let client = match self.clients.get(&client_id) {
            Some(c) => *c,
            None => {
                return Err(LedgerError::NoSuchClient);
            },
        };
        let tx = match self.txs.get(&tx_id) {
            Some(t) => *t,
            None => {
                return Err(LedgerError::NoSuchTx);
            },
        };
        Ok((client, tx))
    }

    /// Store a client's account under its id.
    fn put_client(&mut self, client: Client)
        requires
            client.wf(),
        ensures
            final(self)@ == (Ledger {
                clients: old(self)@.clients.insert(client.id, client),
                ..old(self)@
            }),
    {
        proof {
            use_type_invariant(&*self);
        }
        let mut clients: HashMap<ClientId, Client> = HashMap::new();
        std::mem::swap(&mut clients, &mut self.clients);
        clients.insert(client.id, client);
        self.clients = clients;
    }

    /// Record a transaction under its id.
    fn put_tx(&mut self, tx: Tx)
        ensures
            final(self)@ == (Ledger { txs: old(self)@.txs.insert(tx.id, tx), ..old(self)@ }),
    {
        proof {
            use_type_invariant(&*self);
            use_type_invariant(&tx.amount);
        }
        let mut txs: HashMap<TxId, Tx> = HashMap::new();
        std::mem::swap(&mut txs, &mut self.txs);
        txs.insert(tx.id, tx);
        self.txs = txs;
    }

    /// Look up an existing client, or make a new one.
    fn client(&self, id: ClientId) -> (r: Client)
        ensures
            r == self@.client_or_new(id),
            r.wf(),
            r.id == id,
    {
        proof {
            use_type_invariant(self);
            Amount::lemma_from_parts(0, 0);
        }
        match self.clients.get(&id) {
            Some(c) => *c,
            None => Client::new(id),
        }
    }
}

} // verus!
