//! The error taxonomy of the engine.
//!
//! Every handler-level failure is reported through one of these variants;
//! no operation panics and no failure leaves the ledger partially updated.

use vstd::prelude::*;

verus! {

/// Why a transaction could not be applied.
///
/// Amounts are fixed-point decimals: an integer count of ten-thousandths
/// of a currency unit.
#[derive(Debug, Clone, Copy, PartialEq, Eq, Structural)]
pub enum TransactionError {
    /// The client account is locked, so deposits and withdrawals are refused.
    ClientIsLocked(u16),
    /// The account was already locked when a lock was requested.
    ClientLockFailed(u16),
    /// The account was not locked when an unlock was requested.
    ClientUnlockFailed(u16),
    /// The requested amount exceeds the client's available funds.
    AmountNotAvailable { client_id: u16, amount: u64 },
    /// The requested amount exceeds the client's held funds.
    AmountNotHeld { client_id: u16, amount: u64 },
    /// A dispute, resolve or chargeback names a client that does not exist.
    ClientDoesNotExist,
    /// A deposit or withdrawal reuses a transaction id that is already logged.
    TransactionExistsAlready,
    /// A record is malformed: a required amount is missing.
    InvalidTransactionRecord,
    /// The dispute's transaction id is unknown, or the record is not open
    /// to a dispute.
    InvalidDispute,
    /// The resolve's transaction id is unknown, or the record is not
    /// currently disputed.
    InvalidResolve,
    /// The chargeback's transaction id is unknown, or the record was
    /// already charged back.
    InvalidChargeback,
    /// The textual transaction kind is not one of the five known kinds.
    UnknownTransactionType,
    /// A deposit would push the client's balance past the largest
    /// representable amount.
    BalanceOverflow { client_id: u16, amount: u64 },
}

} // verus!
