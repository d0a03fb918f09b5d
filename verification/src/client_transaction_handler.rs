//! The ledger engine: routes each incoming record to one of five handlers
//! and keeps the client table and the transaction log consistent.
//!
//! Every outcome of `add_transaction` — the resulting ledger state and the
//! returned verdict — is pinned down by `apply_spec`. A failed record never
//! mutates the ledger: each handler validates first, stages its changes on
//! copies, and commits the record flag and the balance change together or
//! not at all.

use crate::client::Client;
use crate::errors::TransactionError;
use crate::transaction::Transaction;
use crate::transaction::TxType;
use std::collections::HashMap;
use vstd::prelude::*;

verus! {

broadcast use vstd::std_specs::hash::group_hash_axioms;

/// The mathematical state of the engine: the transaction log and the
/// client table, as maps.
#[verifier::ext_equal]
pub ghost struct LedgerView {
    pub transactions: Map<u32, Transaction>,
    pub clients: Map<u16, Client>,
}

/// Every client in the table is well formed and filed under its own id,
/// and every logged record is filed under its own transaction id.
pub open spec fn ledger_wf(s: LedgerView) -> bool {
    &&& forall|cid: u16|
        s.clients.contains_key(cid) ==> (#[trigger] s.clients[cid]).wf() && s.clients[cid].id == cid
    &&& forall|txid: u32|
        s.transactions.contains_key(txid) ==> (#[trigger] s.transactions[txid]).tx_id == txid
}

/// The account a deposit or withdrawal addresses: the existing one, or a
/// fresh zero-balance account created lazily.
pub open spec fn client_for(s: LedgerView, cid: u16) -> Client {
    if s.clients.contains_key(cid) {
        s.clients[cid]
    } else {
        Client::initial(cid)
    }
}

/// The ledger after logging `t` and updating its client to `c`.
pub open spec fn committed(s: LedgerView, t: Transaction, c: Client) -> LedgerView {
    LedgerView {
        transactions: s.transactions.insert(t.tx_id, t),
        clients: s.clients.insert(t.client_id, c),
    }
}

/// Outcome of a deposit or withdrawal record: the next ledger state and
/// the verdict. The record is validated in full — amount present, fresh
/// transaction id, account unlocked, balance change representable — before
/// anything is committed, so an error changes nothing.
pub open spec fn money_outcome(s: LedgerView, t: Transaction) -> (LedgerView, Result<
    (),
    TransactionError,
>) {
    let c = client_for(s, t.client_id);
    match t.amount {
        None => (s, Err(TransactionError::InvalidTransactionRecord)),
        Some(a) => if s.transactions.contains_key(t.tx_id) {
            (s, Err(TransactionError::TransactionExistsAlready))
        } else if c.locked {
            (s, Err(TransactionError::ClientIsLocked(c.id)))
        } else if t.tx_type == TxType::Deposit {
            if a > u64::MAX - c.spec_total() {
                (s, Err(TransactionError::BalanceOverflow { client_id: c.id, amount: a }))
            } else {
                (committed(s, t, Client { available: (c.available + a) as u64, ..c }), Ok(()))
            }
        } else {
            if a > c.available {
                (s, Err(TransactionError::AmountNotAvailable { client_id: c.id, amount: a }))
            } else {
                (committed(s, t, Client { available: (c.available - a) as u64, ..c }), Ok(()))
            }
        },
    }
}

/// Outcome of a dispute record `t`: the referenced record's amount moves
/// from its owner's available funds to held funds and the record is marked
/// disputed, both together or — on any failure — neither.
pub open spec fn dispute_outcome(s: LedgerView, t: Transaction) -> (LedgerView, Result<
    (),
    TransactionError,
>) {
    if !s.transactions.contains_key(t.tx_id) {
        (s, Err(TransactionError::InvalidDispute))
    } else if !s.clients.contains_key(t.client_id) {
        (s, Err(TransactionError::ClientDoesNotExist))
    } else {
        let tx = s.transactions[t.tx_id];
        if !s.clients.contains_key(tx.client_id) {
            (s, Err(TransactionError::InvalidDispute))
        } else {
            let c = s.clients[tx.client_id];
            if tx.disputed || tx.charged_back {
                (s, Err(TransactionError::InvalidDispute))
            } else {
                match tx.amount {
                    None => (s, Err(TransactionError::InvalidTransactionRecord)),
                    Some(a) => if a > c.available {
                        (s, Err(TransactionError::AmountNotAvailable { client_id: c.id, amount: a }))
                    } else {
                        (
                            LedgerView {
                                transactions: s.transactions.insert(
                                    tx.tx_id,
                                    Transaction { disputed: true, ..tx },
                                ),
                                clients: s.clients.insert(
                                    tx.client_id,
                                    Client {
                                        available: (c.available - a) as u64,
                                        held: (c.held + a) as u64,
                                        ..c
                                    },
                                ),
                            },
                            Ok(()),
                        )
                    },
                }
            }
        }
    }
}

/// Outcome of a resolve record `t`: the referenced record's amount moves
/// from held back to available funds and its dispute is closed, both
/// together or — on any failure — neither.
pub open spec fn resolve_outcome(s: LedgerView, t: Transaction) -> (LedgerView, Result<
    (),
    TransactionError,
>) {
    if !s.transactions.contains_key(t.tx_id) {
        (s, Err(TransactionError::InvalidResolve))
    } else if !s.clients.contains_key(t.client_id) {
        (s, Err(TransactionError::ClientDoesNotExist))
    } else {
        let tx = s.transactions[t.tx_id];
        if !s.clients.contains_key(tx.client_id) {
            (s, Err(TransactionError::InvalidResolve))
        } else {
            let c = s.clients[tx.client_id];
            if !tx.disputed {
                (s, Err(TransactionError::InvalidResolve))
            } else {
                match tx.amount {
                    None => (s, Err(TransactionError::InvalidTransactionRecord)),
                    Some(a) => if a > c.held {
                        (s, Err(TransactionError::AmountNotHeld { client_id: c.id, amount: a }))
                    } else {
                        (
                            LedgerView {
                                transactions: s.transactions.insert(
                                    tx.tx_id,
                                    Transaction { disputed: false, ..tx },
                                ),
                                clients: s.clients.insert(
                                    tx.client_id,
                                    Client {
                                        available: (c.available + a) as u64,
                                        held: (c.held - a) as u64,
                                        ..c
                                    },
                                ),
                            },
                            Ok(()),
                        )
                    },
                }
            }
        }
    }
}

/// Outcome of a chargeback record `t`: the referenced record leaves its
/// dispute and is marked charged back — its terminal state — while the
/// amount leaves the owner's held funds for good and the account is
/// locked. All of it together, or — on any failure — nothing.
pub open spec fn chargeback_outcome(s: LedgerView, t: Transaction) -> (LedgerView, Result<
    (),
    TransactionError,
>) {
    if !s.transactions.contains_key(t.tx_id) {
        (s, Err(TransactionError::InvalidResolve))
    } else if !s.clients.contains_key(t.client_id) {
        (s, Err(TransactionError::ClientDoesNotExist))
    } else {
        let tx = s.transactions[t.tx_id];
        if !s.clients.contains_key(tx.client_id) {
            (s, Err(TransactionError::InvalidResolve))
        } else {
            let c = s.clients[tx.client_id];
            if !tx.disputed {
                (s, Err(TransactionError::InvalidResolve))
            } else if tx.charged_back {
                (s, Err(TransactionError::InvalidChargeback))
            } else {
                match tx.amount {
                    None => (s, Err(TransactionError::InvalidTransactionRecord)),
                    Some(a) => if a > c.held {
                        (s, Err(TransactionError::AmountNotHeld { client_id: c.id, amount: a }))
                    } else {
                        (
                            LedgerView {
                                transactions: s.transactions.insert(
                                    tx.tx_id,
                                    Transaction { disputed: false, charged_back: true, ..tx },
                                ),
                                clients: s.clients.insert(
                                    tx.client_id,
                                    Client { held: (c.held - a) as u64, locked: true, ..c },
                                ),
                            },
                            Ok(()),
                        )
                    },
                }
            }
        }
    }
}

/// The full meaning of applying one record: the next ledger state and the
/// verdict, routed by the record's kind.
pub open spec fn apply_spec(s: LedgerView, t: Transaction) -> (LedgerView, Result<
    (),
    TransactionError,
>) {
    match t.tx_type {
        TxType::Deposit => money_outcome(s, t),
        TxType::Withdrawal => money_outcome(s, t),
        TxType::Dispute => dispute_outcome(s, t),
        TxType::Resolve => resolve_outcome(s, t),
        TxType::Chargeback => chargeback_outcome(s, t),
    }
}

/// The engine. It owns the transaction log and the client table and is
/// their single writer; callers see them only through read-only views.
pub struct ClientTransactionHandler {
    transactions: HashMap<u32, Transaction>,
    clients: HashMap<u16, Client>,
}

impl View for ClientTransactionHandler {
    type V = LedgerView;

    closed spec fn view(&self) -> LedgerView {
        LedgerView { transactions: self.transactions@, clients: self.clients@ }
    }
}

impl ClientTransactionHandler {
    /// The engine's invariant: every stored client account is well formed.
    pub open spec fn wf(self) -> bool {
        ledger_wf(self@)
    }

    /// A fresh engine: no logged transactions, no clients.
    pub fn new() -> (h: ClientTransactionHandler)
        ensures
            h.wf(),
            h@.transactions == Map::<u32, Transaction>::empty(),
            h@.clients == Map::<u16, Client>::empty(),
    {
        ClientTransactionHandler { transactions: HashMap::new(), clients: HashMap::new() }
    }

    /// Applies a deposit or withdrawal: validates the record in full, then
    /// commits the balance change and the log entry together.
    fn money_transaction(&mut self, t: Transaction) -> (r: Result<(), TransactionError>)
        requires
            old(self).wf(),
        ensures
            final(self).wf(),
            r == money_outcome(old(self)@, t).1,
            final(self)@ == money_outcome(old(self)@, t).0,
    {
        let amount = match t.amount() {
            Some(a) => a,
            None => {
                return Err(TransactionError::InvalidTransactionRecord);
            },
        };
        if self.transactions.contains_key(&t.id()) {
            return Err(TransactionError::TransactionExistsAlready);
        }
        let mut c: Client = match self.clients.get(&t.client_id()) {
            Some(c0) => *c0,
            None => Client::from_id(t.client_id()),
        };
        let res = if t.tx_type() == TxType::Deposit {
            c.deposit(amount)
        } else {
            c.withdraw(amount)
        };
        match res {
            Ok(_) => {
                self.clients.insert(t.client_id(), c);
                self.transactions.insert(t.id(), t);
                proof {
                    assert(self@ =~= money_outcome(old(self)@, t).0);
                }
                Ok(())
            },
            Err(e) => Err(e),
        }
    }

    /// Applies a dispute record: stages the flag flip and the balance move
    /// on copies and commits both, or neither.
    fn dispute_transaction(&mut self, t: Transaction) -> (r: Result<(), TransactionError>)
        requires
            old(self).wf(),
        ensures
            final(self).wf(),
            r == dispute_outcome(old(self)@, t).1,
            final(self)@ == dispute_outcome(old(self)@, t).0,
    {
        let mut tx: Transaction = match self.transactions.get(&t.id()) {
            Some(p) => *p,
            None => {
                return Err(TransactionError::InvalidDispute);
            },
        };
        if !self.clients.contains_key(&t.client_id()) {
            return Err(TransactionError::ClientDoesNotExist);
        }
        let mut c: Client = match self.clients.get(&tx.client_id()) {
            Some(p) => *p,
            None => {
                return Err(TransactionError::InvalidDispute);
            },
        };
        tx.dispute()?;
        let amount = match tx.amount() {
            Some(a) => a,
            None => {
                return Err(TransactionError::InvalidTransactionRecord);
            },
        };
        c.dispute(amount)?;
        self.transactions.insert(tx.id(), tx);
        self.clients.insert(tx.client_id(), c);
        proof {
            assert(self@ =~= dispute_outcome(old(self)@, t).0);
        }
        Ok(())
    }

    /// Applies a resolve record: stages the flag flip and the balance move
    /// on copies and commits both, or neither.
    fn resolve_transaction(&mut self, t: Transaction) -> (r: Result<(), TransactionError>)
        requires
            old(self).wf(),
        ensures
            final(self).wf(),
            r == resolve_outcome(old(self)@, t).1,
            final(self)@ == resolve_outcome(old(self)@, t).0,
    {
        let mut tx: Transaction = match self.transactions.get(&t.id()) {
            Some(p) => *p,
            None => {
                return Err(TransactionError::InvalidResolve);
            },
        };
        if !self.clients.contains_key(&t.client_id()) {
            return Err(TransactionError::ClientDoesNotExist);
        }
        let mut c: Client = match self.clients.get(&tx.client_id()) {
            Some(p) => *p,
            None => {
                return Err(TransactionError::InvalidResolve);
            },
        };
        tx.resolve()?;
        let amount = match tx.amount() {
            Some(a) => a,
            None => {
                return Err(TransactionError::InvalidTransactionRecord);
            },
        };
        c.resolve(amount)?;
        self.transactions.insert(tx.id(), tx);
        self.clients.insert(tx.client_id(), c);
        proof {
            assert(self@ =~= resolve_outcome(old(self)@, t).0);
        }
        Ok(())
    }

    /// Applies a chargeback record: the referenced record first leaves its
    /// dispute, then is marked charged back, then the owner's held funds
    /// drop and the account locks — staged on copies, committed all
    /// together or not at all.
    fn chargeback_transaction(&mut self, t: Transaction) -> (r: Result<(), TransactionError>)
        requires
            old(self).wf(),
        ensures
            final(self).wf(),
            r == chargeback_outcome(old(self)@, t).1,
            final(self)@ == chargeback_outcome(old(self)@, t).0,
    {
        let mut tx: Transaction = match self.transactions.get(&t.id()) {
            Some(p) => *p,
            None => {
                return Err(TransactionError::InvalidResolve);
            },
        };
        if !self.clients.contains_key(&t.client_id()) {
            return Err(TransactionError::ClientDoesNotExist);
        }
        let mut c: Client = match self.clients.get(&tx.client_id()) {
            Some(p) => *p,
            None => {
                return Err(TransactionError::InvalidResolve);
            },
        };
        tx.resolve()?;
        tx.chargeback()?;
        let amount = match tx.amount() {
            Some(a) => a,
            None => {
                return Err(TransactionError::InvalidTransactionRecord);
            },
        };
        c.chargeback(amount)?;
        self.transactions.insert(tx.id(), tx);
        self.clients.insert(tx.client_id(), c);
        proof {
            assert(self@ =~= chargeback_outcome(old(self)@, t).0);
        }
        Ok(())
    }

    /// Applies one record to the ledger: the single entry point. The
    /// resulting state and verdict are exactly `apply_spec`; in
    /// particular, a record that fails leaves the ledger untouched.
    pub fn add_transaction(&mut self, t: Transaction) -> (r: Result<(), TransactionError>)
        requires
            old(self).wf(),
        ensures
            final(self).wf(),
            r == apply_spec(old(self)@, t).1,
            final(self)@ == apply_spec(old(self)@, t).0,
    {
        match t.tx_type() {
            TxType::Deposit => self.money_transaction(t),
            TxType::Withdrawal => self.money_transaction(t),
            TxType::Dispute => self.dispute_transaction(t),
            TxType::Resolve => self.resolve_transaction(t),
            TxType::Chargeback => self.chargeback_transaction(t),
        }
    }

    /// A read-only view of all client accounts, keyed by client id.
    pub fn clients(&self) -> (m: &HashMap<u16, Client>)
        ensures
            m@ == self@.clients,
    {
        &self.clients
    }

    /// A read-only view of the transaction log, keyed by transaction id.
    pub fn transactions(&self) -> (m: &HashMap<u32, Transaction>)
        ensures
            m@ == self@.transactions,
    {
        &self.transactions
    }
}

} // verus!
