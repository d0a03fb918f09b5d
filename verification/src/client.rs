//! Client accounts and their balance operations.
//!
//! A `Client` carries two fixed-point balances — `available` funds, free to
//! withdraw or dispute, and `held` funds, frozen under an active dispute —
//! plus a lock flag that a chargeback sets permanently. Amounts are integer
//! counts of ten-thousandths of a currency unit.

use crate::amount::amount_text;
use crate::amount::bool_str;
use crate::amount::bool_text;
use crate::amount::dec_digits;
use crate::amount::format_amount;
use crate::amount::push_dec;
use crate::errors::TransactionError;
use vstd::prelude::*;

verus! {

/// One output line for a client: id, available, held and total as
/// four-digit decimals, and the lock state, comma-separated.
pub open spec fn client_csv(c: Client) -> Seq<char> {
    dec_digits(c.id as nat) + seq![','] + amount_text(c.available) + seq![','] + amount_text(c.held)
        + seq![','] + amount_text((c.available + c.held) as u64) + seq![','] + bool_text(c.locked)
}

/// A client account.
///
/// Well-formed accounts keep `available + held` within `u64`, so the
/// total balance is always representable and no operation overflows.
#[derive(Debug, Clone, Copy, PartialEq, Eq, Structural)]
pub struct Client {
    pub id: u16,
    pub available: u64,
    pub held: u64,
    pub locked: bool,
}

impl Client {
    /// The account's well-formedness invariant: the total balance fits in `u64`.
    pub open spec fn wf(self) -> bool {
        self.available + self.held <= u64::MAX
    }

    /// The full balance, `available + held`, as an unbounded integer.
    pub open spec fn spec_total(self) -> int {
        self.available + self.held
    }

    /// The state of a freshly created account: zero balances, unlocked.
    pub open spec fn initial(id: u16) -> Client {
        Client { id, available: 0, held: 0, locked: false }
    }

    /// Creates the account a first transaction for `id` brings into being.
    pub fn from_id(id: u16) -> (c: Client)
        ensures
            c == Client::initial(id),
    {
        Client { id, available: 0, held: 0, locked: false }
    }

    /// The full balance: available plus held funds.
    pub fn total(&self) -> (t: u64)
        requires
            self.wf(),
        ensures
            t == self.spec_total(),
    {
        self.available + self.held
    }

    /// The funds free to withdraw or dispute.
    pub fn available(&self) -> (a: u64)
        ensures
            a == self.available,
    {
        self.available
    }

    /// The funds frozen under active disputes.
    pub fn held(&self) -> (h: u64)
        ensures
            h == self.held,
    {
        self.held
    }

    /// The account as `(id, available, held, total, locked)`.
    pub fn as_tuple(&self) -> (t: (u16, u64, u64, u64, bool))
        requires
            self.wf(),
        ensures
            t == ((self.id, self.available, self.held, (self.available + self.held) as u64, self.locked)),
    {
        (self.id, self.available, self.held, self.total(), self.locked)
    }

    /// The account as one CSV output line: id, available, held, total —
    /// each amount with exactly four fractional digits — and the lock
    /// state. The total is recomputed from available and held.
    pub fn as_csv(&self) -> (r: String)
        requires
            self.wf(),
        ensures
            r@ == client_csv(*self),
    {
        proof {
            reveal_strlit(",");
        }
        let mut s = String::new();
        push_dec(&mut s, self.id as u64);
        s.append(",");
        s.append(format_amount(self.available).as_str());
        s.append(",");
        s.append(format_amount(self.held).as_str());
        s.append(",");
        s.append(format_amount(self.total()).as_str());
        s.append(",");
        s.append(bool_str(self.locked));
        proof {
            assert(s@ =~= client_csv(*self));
        }
        s
    }

    /// Fails when the account is locked; deposits and withdrawals call this first.
    fn is_locked(&self) -> (r: Result<(), TransactionError>)
        ensures
            self.locked ==> r == Err::<(), TransactionError>(TransactionError::ClientIsLocked(self.id)),
            !self.locked ==> r == Ok::<(), TransactionError>(()),
    {
        if self.locked {
            Err(TransactionError::ClientIsLocked(self.id))
        } else {
            Ok(())
        }
    }

    /// Adds `amount` to the available funds and returns the new available amount.
    ///
    /// Fails if the account is locked, or if the deposit would push the
    /// total balance past the largest representable amount; a failed
    /// deposit leaves the account untouched.
    pub fn deposit(&mut self, amount: u64) -> (r: Result<u64, TransactionError>)
        requires
            old(self).wf(),
        ensures
            final(self).wf(),
            old(self).locked ==> r == Err::<u64, TransactionError>(TransactionError::ClientIsLocked(old(self).id))
                && *final(self) == *old(self),
            !old(self).locked && amount > u64::MAX - old(self).spec_total() ==> r == Err::<u64, TransactionError>(
                TransactionError::BalanceOverflow { client_id: old(self).id, amount },
            ) && *final(self) == *old(self),
            !old(self).locked && amount <= u64::MAX - old(self).spec_total() ==> *final(self) == (Client {
                available: (old(self).available + amount) as u64,
                ..*old(self)
            }) && r == Ok::<u64, TransactionError>(final(self).available),
    {
        self.is_locked()?;
        let headroom: u64 = u64::MAX - self.available - self.held;
        if amount > headroom {
            return Err(TransactionError::BalanceOverflow { client_id: self.id, amount });
        }
        self.available = self.available + amount;
        Ok(self.available)
    }

    /// Removes `amount` from the available funds and returns the new
    /// available amount.
    ///
    /// Fails if the account is locked or if `amount` exceeds the available
    /// funds; a failed withdrawal leaves the account untouched.
    pub fn withdraw(&mut self, amount: u64) -> (r: Result<u64, TransactionError>)
        requires
            old(self).wf(),
        ensures
            final(self).wf(),
            old(self).locked ==> r == Err::<u64, TransactionError>(TransactionError::ClientIsLocked(old(self).id))
                && *final(self) == *old(self),
            !old(self).locked && amount > old(self).available ==> r == Err::<u64, TransactionError>(
                TransactionError::AmountNotAvailable { client_id: old(self).id, amount },
            ) && *final(self) == *old(self),
            !old(self).locked && amount <= old(self).available ==> *final(self) == (Client {
                available: (old(self).available - amount) as u64,
                ..*old(self)
            }) && r == Ok::<u64, TransactionError>(final(self).available),
    {
        self.is_locked()?;
        if amount > self.available {
            Err(TransactionError::AmountNotAvailable { client_id: self.id, amount })
        } else {
            self.available = self.available - amount;
            Ok(self.available)
        }
    }

    /// Sets the lock flag; fails if the account is already locked.
    pub fn lock(&mut self) -> (r: Result<(), TransactionError>)
        ensures
            old(self).locked ==> r == Err::<(), TransactionError>(TransactionError::ClientLockFailed(old(self).id))
                && *final(self) == *old(self),
            !old(self).locked ==> *final(self) == (Client { locked: true, ..*old(self) })
                && r == Ok::<(), TransactionError>(()),
    {
        if self.locked {
            Err(TransactionError::ClientLockFailed(self.id))
        } else {
            self.locked = true;
            Ok(())
        }
    }

    /// Clears the lock flag; fails if the account is not locked.
    pub fn unlock(&mut self) -> (r: Result<(), TransactionError>)
        ensures
            !old(self).locked ==> r == Err::<(), TransactionError>(TransactionError::ClientUnlockFailed(old(self).id))
                && *final(self) == *old(self),
            old(self).locked ==> *final(self) == (Client { locked: false, ..*old(self) })
                && r == Ok::<(), TransactionError>(()),
    {
        if !self.locked {
            Err(TransactionError::ClientUnlockFailed(self.id))
        } else {
            self.locked = false;
            Ok(())
        }
    }

    /// Moves `amount` from available to held funds; the total balance is
    /// unchanged. Disputes ignore the lock flag.
    ///
    /// Fails if `amount` exceeds the available funds; a failed dispute
    /// leaves the account untouched.
    pub fn dispute(&mut self, amount: u64) -> (r: Result<(), TransactionError>)
        requires
            old(self).wf(),
        ensures
            final(self).wf(),
            amount > old(self).available ==> r == Err::<(), TransactionError>(
                TransactionError::AmountNotAvailable { client_id: old(self).id, amount },
            ) && *final(self) == *old(self),
            amount <= old(self).available ==> *final(self) == (Client {
                available: (old(self).available - amount) as u64,
                held: (old(self).held + amount) as u64,
                ..*old(self)
            }) && r == Ok::<(), TransactionError>(()),
            final(self).spec_total() == old(self).spec_total(),
    {
        if amount > self.available {
            Err(TransactionError::AmountNotAvailable { client_id: self.id, amount })
        } else {
            self.available = self.available - amount;
            self.held = self.held + amount;
            Ok(())
        }
    }

    /// Moves `amount` from held back to available funds, reversing a
    /// dispute; the total balance is unchanged.
    ///
    /// Fails if `amount` exceeds the held funds; a failed resolve leaves
    /// the account untouched.
    pub fn resolve(&mut self, amount: u64) -> (r: Result<(), TransactionError>)
        requires
            old(self).wf(),
        ensures
            final(self).wf(),
            amount > old(self).held ==> r == Err::<(), TransactionError>(
                TransactionError::AmountNotHeld { client_id: old(self).id, amount },
            ) && *final(self) == *old(self),
            amount <= old(self).held ==> *final(self) == (Client {
                available: (old(self).available + amount) as u64,
                held: (old(self).held - amount) as u64,
                ..*old(self)
            }) && r == Ok::<(), TransactionError>(()),
            final(self).spec_total() == old(self).spec_total(),
    {
        if amount > self.held {
            Err(TransactionError::AmountNotHeld { client_id: self.id, amount })
        } else {
            self.available = self.available + amount;
            self.held = self.held - amount;
            Ok(())
        }
    }

    /// Removes `amount` from the held funds — dropping the total balance by
    /// `amount` for good — and locks the account.
    ///
    /// Fails if `amount` exceeds the held funds; a failed chargeback leaves
    /// the account untouched. Locking is idempotent here: a chargeback on an
    /// already-locked account still completes the balance adjustment, so a
    /// second legitimate chargeback never strands held funds.
    pub fn chargeback(&mut self, amount: u64) -> (r: Result<(), TransactionError>)
        requires
            old(self).wf(),
        ensures
            final(self).wf(),
            amount > old(self).held ==> r == Err::<(), TransactionError>(
                TransactionError::AmountNotHeld { client_id: old(self).id, amount },
            ) && *final(self) == *old(self),
            amount <= old(self).held ==> *final(self) == (Client {
                held: (old(self).held - amount) as u64,
                locked: true,
                ..*old(self)
            }) && r == Ok::<(), TransactionError>(())
                && final(self).spec_total() == old(self).spec_total() - amount,
    {
        if amount > self.held {
            Err(TransactionError::AmountNotHeld { client_id: self.id, amount })
        } else {
            self.held = self.held - amount;
            self.locked = true;
            Ok(())
        }
    }
}

} // verus!
