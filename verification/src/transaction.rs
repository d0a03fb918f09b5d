//! Transaction records and their dispute-lifecycle transitions.
//!
//! A record is an immutable input fact — kind, client, transaction id and,
//! for deposits and withdrawals, an amount — plus two mutable dispute
//! flags. The flags move through `Normal -> Disputed -> Normal` (resolve)
//! or `Normal -> Disputed -> ChargedBack` (chargeback, terminal); every
//! other transition is rejected.

use crate::errors::TransactionError;
use vstd::prelude::*;

verus! {

/// The five transaction kinds.
#[derive(Debug, Clone, Copy, PartialEq, Eq, Structural)]
pub enum TxType {
    Deposit,
    Withdrawal,
    Dispute,
    Resolve,
    Chargeback,
}

/// Which kind a textual transaction name denotes, or an error for any
/// other text.
pub open spec fn kind_of(s: Seq<char>) -> Result<TxType, TransactionError> {
    if s == "deposit"@ {
        Ok(TxType::Deposit)
    } else if s == "withdrawal"@ {
        Ok(TxType::Withdrawal)
    } else if s == "dispute"@ {
        Ok(TxType::Dispute)
    } else if s == "resolve"@ {
        Ok(TxType::Resolve)
    } else if s == "chargeback"@ {
        Ok(TxType::Chargeback)
    } else {
        Err(TransactionError::UnknownTransactionType)
    }
}

/// Character-for-character equality of two string slices.
fn str_eq(a: &str, b: &str) -> (r: bool)
    ensures
        r == (a@ == b@),
{
    let n = a.unicode_len();
    if n != b.unicode_len() {
        return false;
    }
    let mut i: usize = 0;
    while i < n
        invariant
            n == a@.len(),
            n == b@.len(),
            0 <= i <= n,
            forall|k: int| 0 <= k < i ==> a@[k] == b@[k],
        decreases n - i,
    {
        if a.get_char(i) != b.get_char(i) {
            return false;
        }
        i = i + 1;
    }
    proof {
        assert(a@ =~= b@);
    }
    true
}

impl TxType {
    /// Parses a textual transaction kind; the ingestion boundary rejects
    /// unknown kinds here, before any state is touched.
    pub fn from_str(s: &str) -> (r: Result<TxType, TransactionError>)
        ensures
            r == kind_of(s@),
    {
        if str_eq(s, "deposit") {
            Ok(TxType::Deposit)
        } else if str_eq(s, "withdrawal") {
            Ok(TxType::Withdrawal)
        } else if str_eq(s, "dispute") {
            Ok(TxType::Dispute)
        } else if str_eq(s, "resolve") {
            Ok(TxType::Resolve)
        } else if str_eq(s, "chargeback") {
            Ok(TxType::Chargeback)
        } else {
            Err(TransactionError::UnknownTransactionType)
        }
    }
}

/// One transaction record. Deposits and withdrawals carry an amount — an
/// integer count of ten-thousandths of a currency unit — while disputes,
/// resolves and chargebacks reference a prior record by `tx_id` instead.
#[derive(Debug, Clone, Copy, PartialEq, Eq, Structural)]
pub struct Transaction {
    pub tx_type: TxType,
    pub client_id: u16,
    pub tx_id: u32,
    pub amount: Option<u64>,
    pub disputed: bool,
    pub charged_back: bool,
}

impl Transaction {
    /// A fresh record: both dispute flags start false.
    pub fn new(tx_type: TxType, client_id: u16, tx_id: u32, amount: Option<u64>) -> (t:
        Transaction)
        ensures
            t == (Transaction { tx_type, client_id, tx_id, amount, disputed: false, charged_back: false }),
    {
        Transaction { tx_type, client_id, tx_id, amount, disputed: false, charged_back: false }
    }

    /// The record's unique transaction id, the log index.
    pub fn id(&self) -> (r: u32)
        ensures
            r == self.tx_id,
    {
        self.tx_id
    }

    /// The id of the client the record belongs to.
    pub fn client_id(&self) -> (r: u16)
        ensures
            r == self.client_id,
    {
        self.client_id
    }

    /// The record's kind.
    pub fn tx_type(&self) -> (r: TxType)
        ensures
            r == self.tx_type,
    {
        self.tx_type
    }

    /// The record's amount, if it carries one.
    pub fn amount(&self) -> (r: Option<u64>)
        ensures
            r == self.amount,
    {
        self.amount
    }

    /// Opens a dispute on the record.
    ///
    /// Fails with `InvalidDispute` if the record is already disputed or was
    /// charged back — a charged-back record is terminal.
    pub fn dispute(&mut self) -> (r: Result<(), TransactionError>)
        ensures
            old(self).disputed || old(self).charged_back ==> r == Err::<(), TransactionError>(
                TransactionError::InvalidDispute,
            ) && *final(self) == *old(self),
            !old(self).disputed && !old(self).charged_back ==> *final(self) == (Transaction {
                disputed: true,
                ..*old(self)
            }) && r == Ok::<(), TransactionError>(()),
    {
        if self.disputed || self.charged_back {
            Err(TransactionError::InvalidDispute)
        } else {
            self.disputed = true;
            Ok(())
        }
    }

    /// Closes the record's dispute.
    ///
    /// Fails with `InvalidResolve` if the record is not currently disputed.
    pub fn resolve(&mut self) -> (r: Result<(), TransactionError>)
        ensures
            !old(self).disputed ==> r == Err::<(), TransactionError>(TransactionError::InvalidResolve)
                && *final(self) == *old(self),
            old(self).disputed ==> *final(self) == (Transaction { disputed: false, ..*old(self) })
                && r == Ok::<(), TransactionError>(()),
    {
        if !self.disputed {
            Err(TransactionError::InvalidResolve)
        } else {
            self.disputed = false;
            Ok(())
        }
    }

    /// Marks the record charged back, its terminal state.
    ///
    /// Fails with `InvalidChargeback` if the record was already charged back.
    pub fn chargeback(&mut self) -> (r: Result<(), TransactionError>)
        ensures
            old(self).charged_back ==> r == Err::<(), TransactionError>(TransactionError::InvalidChargeback)
                && *final(self) == *old(self),
            !old(self).charged_back ==> *final(self) == (Transaction { charged_back: true, ..*old(self) })
                && r == Ok::<(), TransactionError>(()),
    {
        if self.charged_back {
            Err(TransactionError::InvalidChargeback)
        } else {
            self.charged_back = true;
            Ok(())
        }
    }

    /// Whether the record was charged back.
    pub fn charged_back(&self) -> (r: bool)
        ensures
            r == self.charged_back,
    {
        self.charged_back
    }

    /// Whether the record is currently disputed.
    pub fn disputed(&self) -> (r: bool)
        ensures
            r == self.disputed,
    {
        self.disputed
    }
}

} // verus!
