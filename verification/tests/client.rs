use jellyfish::client::Client;
use jellyfish::errors::TransactionError;

// Amounts are fixed-point: 10000 units stand for 1.0 currency units.

#[test]
fn a_fresh_client_is_empty_and_unlocked() {
    let c = Client::from_id(4);
    assert_eq!(c.as_tuple(), (4, 0, 0, 0, false));
    assert_eq!(c.available(), 0);
    assert_eq!(c.held(), 0);
    assert_eq!(c.total(), 0);
}

#[test]
fn deposit_returns_the_new_available_amount() {
    let mut c = Client::from_id(1);
    assert_eq!(c.deposit(10000), Ok(10000));
    assert_eq!(c.deposit(2500), Ok(12500));
    assert_eq!(c.total(), 12500);
}

#[test]
fn withdraw_returns_the_new_available_amount() {
    let mut c = Client::from_id(1);
    c.deposit(10000).unwrap();
    assert_eq!(c.withdraw(2500), Ok(7500));
    assert_eq!(c.total(), 7500);
}

#[test]
fn withdraw_past_available_funds_fails_untouched() {
    let mut c = Client::from_id(1);
    c.deposit(10000).unwrap();
    let r = c.withdraw(10001);
    assert_eq!(r, Err(TransactionError::AmountNotAvailable { client_id: 1, amount: 10001 }));
    assert_eq!(c.as_tuple(), (1, 10000, 0, 10000, false));
}

#[test]
fn locked_accounts_refuse_deposits_and_withdrawals() {
    let mut c = Client::from_id(3);
    c.deposit(10000).unwrap();
    c.lock().unwrap();
    assert_eq!(c.deposit(1), Err(TransactionError::ClientIsLocked(3)));
    assert_eq!(c.withdraw(1), Err(TransactionError::ClientIsLocked(3)));
    assert_eq!(c.total(), 10000);
}

#[test]
fn locking_twice_fails() {
    let mut c = Client::from_id(3);
    c.lock().unwrap();
    assert_eq!(c.lock(), Err(TransactionError::ClientLockFailed(3)));
}

#[test]
fn unlocking_an_unlocked_account_fails() {
    let mut c = Client::from_id(3);
    assert_eq!(c.unlock(), Err(TransactionError::ClientUnlockFailed(3)));
    c.lock().unwrap();
    assert_eq!(c.unlock(), Ok(()));
    assert_eq!(c.lock(), Ok(()));
}

#[test]
fn dispute_moves_funds_without_changing_the_total() {
    let mut c = Client::from_id(1);
    c.deposit(10000).unwrap();
    assert_eq!(c.dispute(10000), Ok(()));
    assert_eq!(c.as_tuple(), (1, 0, 10000, 10000, false));
}

#[test]
fn dispute_past_available_funds_fails_untouched() {
    let mut c = Client::from_id(1);
    c.deposit(10000).unwrap();
    let r = c.dispute(10001);
    assert_eq!(r, Err(TransactionError::AmountNotAvailable { client_id: 1, amount: 10001 }));
    assert_eq!(c.as_tuple(), (1, 10000, 0, 10000, false));
}

#[test]
fn resolve_moves_held_funds_back() {
    let mut c = Client::from_id(1);
    c.deposit(10000).unwrap();
    c.dispute(10000).unwrap();
    assert_eq!(c.resolve(10000), Ok(()));
    assert_eq!(c.as_tuple(), (1, 10000, 0, 10000, false));
}

#[test]
fn resolve_past_held_funds_fails_untouched() {
    let mut c = Client::from_id(1);
    c.deposit(10000).unwrap();
    c.dispute(5000).unwrap();
    let r = c.resolve(5001);
    assert_eq!(r, Err(TransactionError::AmountNotHeld { client_id: 1, amount: 5001 }));
    assert_eq!(c.as_tuple(), (1, 5000, 5000, 10000, false));
}

#[test]
fn chargeback_drops_held_funds_and_locks() {
    let mut c = Client::from_id(1);
    c.deposit(10000).unwrap();
    c.dispute(10000).unwrap();
    assert_eq!(c.chargeback(10000), Ok(()));
    assert_eq!(c.as_tuple(), (1, 0, 0, 0, true));
}

#[test]
fn chargeback_on_a_locked_account_still_adjusts() {
    let mut c = Client::from_id(1);
    c.deposit(10000).unwrap();
    c.dispute(10000).unwrap();
    c.lock().unwrap();
    assert_eq!(c.chargeback(10000), Ok(()));
    assert_eq!(c.as_tuple(), (1, 0, 0, 0, true));
}

#[test]
fn chargeback_past_held_funds_fails_untouched() {
    let mut c = Client::from_id(1);
    c.deposit(10000).unwrap();
    c.dispute(5000).unwrap();
    let r = c.chargeback(5001);
    assert_eq!(r, Err(TransactionError::AmountNotHeld { client_id: 1, amount: 5001 }));
    assert_eq!(c.as_tuple(), (1, 5000, 5000, 10000, false));
}

#[test]
fn deposit_past_the_largest_balance_fails_untouched() {
    let mut c = Client::from_id(1);
    c.deposit(u64::MAX).unwrap();
    let r = c.deposit(1);
    assert_eq!(r, Err(TransactionError::BalanceOverflow { client_id: 1, amount: 1 }));
    assert_eq!(c.available(), u64::MAX);
}

#[test]
fn as_csv_renders_four_fractional_digits() {
    let mut c = Client::from_id(1);
    c.deposit(10000).unwrap();
    assert_eq!(c.as_csv(), "1,1.0000,0.0000,1.0000,false");

    let mut c = Client::from_id(42);
    c.deposit(30001).unwrap();
    c.dispute(7500).unwrap();
    assert_eq!(c.as_csv(), "42,2.2501,0.7500,3.0001,false");

    let mut c = Client::from_id(65535);
    c.deposit(5).unwrap();
    c.dispute(5).unwrap();
    c.chargeback(5).unwrap();
    assert_eq!(c.as_csv(), "65535,0.0000,0.0000,0.0000,true");
}
