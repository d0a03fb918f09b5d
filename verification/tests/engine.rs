use jellyfish::client_transaction_handler::ClientTransactionHandler;
use jellyfish::errors::TransactionError;
use jellyfish::transaction::Transaction;
use jellyfish::transaction::TxType;

// Amounts are fixed-point: 10000 units stand for 1.0 currency units.

#[test]
fn scenario_deposit_dispute_chargeback() {
    let mut h = ClientTransactionHandler::new();
    h.add_transaction(Transaction::new(TxType::Deposit, 1, 1, Some(10000))).unwrap();
    assert_eq!(h.clients().get(&1).unwrap().total(), 10000);

    h.add_transaction(Transaction::new(TxType::Dispute, 1, 1, None)).unwrap();
    assert_eq!(h.clients().get(&1).unwrap().available(), 0);
    assert_eq!(h.clients().get(&1).unwrap().held(), 10000);

    h.add_transaction(Transaction::new(TxType::Chargeback, 1, 1, None)).unwrap();
    let c = h.clients().get(&1).unwrap();
    assert_eq!(c.available(), 0);
    assert_eq!(c.held(), 0);
    assert_eq!(c.total(), 0);
    assert_eq!(c.as_tuple(), (1, 0, 0, 0, true));
}

#[test]
fn scenario_failed_withdrawal_keeps_total() {
    let mut h = ClientTransactionHandler::new();
    h.add_transaction(Transaction::new(TxType::Deposit, 1, 1, Some(10000))).unwrap();
    let r = h.add_transaction(Transaction::new(TxType::Withdrawal, 1, 2, Some(20000)));
    assert!(r.is_err());
    assert_eq!(h.clients().get(&1).unwrap().total(), 10000);
    assert_eq!(h.clients().get(&1).unwrap().available(), 10000);
    assert_eq!(h.clients().get(&1).unwrap().held(), 0);
}

#[test]
fn total_tracks_deposits_minus_withdrawals() {
    let mut h = ClientTransactionHandler::new();
    h.add_transaction(Transaction::new(TxType::Deposit, 7, 1, Some(50000))).unwrap();
    h.add_transaction(Transaction::new(TxType::Withdrawal, 7, 2, Some(20000))).unwrap();
    h.add_transaction(Transaction::new(TxType::Deposit, 7, 3, Some(5000))).unwrap();
    h.add_transaction(Transaction::new(TxType::Withdrawal, 7, 4, Some(15000))).unwrap();
    // 50000 + 5000 - 20000 - 15000
    assert_eq!(h.clients().get(&7).unwrap().total(), 20000);
}

#[test]
fn duplicate_transaction_id_is_rejected() {
    let mut h = ClientTransactionHandler::new();
    h.add_transaction(Transaction::new(TxType::Deposit, 1, 1, Some(10000))).unwrap();
    let r = h.add_transaction(Transaction::new(TxType::Deposit, 1, 1, Some(10000)));
    assert_eq!(r, Err(TransactionError::TransactionExistsAlready));
    // nothing was mutated by the failed record
    assert_eq!(h.clients().get(&1).unwrap().total(), 10000);
    let r = h.add_transaction(Transaction::new(TxType::Withdrawal, 2, 1, Some(10000)));
    assert_eq!(r, Err(TransactionError::TransactionExistsAlready));
    assert!(!h.clients().contains_key(&2));
}

#[test]
fn dispute_with_unknown_client_id_is_rejected() {
    let mut h = ClientTransactionHandler::new();
    h.add_transaction(Transaction::new(TxType::Deposit, 1, 1, Some(10000))).unwrap();
    let r = h.add_transaction(Transaction::new(TxType::Dispute, 9, 1, None));
    assert_eq!(r, Err(TransactionError::ClientDoesNotExist));
    assert_eq!(h.clients().get(&1).unwrap().available(), 10000);
}

#[test]
fn dispute_of_unknown_transaction_mutates_nothing() {
    let mut h = ClientTransactionHandler::new();
    h.add_transaction(Transaction::new(TxType::Deposit, 1, 1, Some(10000))).unwrap();
    let r = h.add_transaction(Transaction::new(TxType::Dispute, 1, 5, None));
    assert_eq!(r, Err(TransactionError::InvalidDispute));
    assert_eq!(h.clients().get(&1).unwrap().available(), 10000);
    assert_eq!(h.clients().get(&1).unwrap().held(), 0);
    assert!(!h.transactions().contains_key(&5));
}

#[test]
fn chargeback_of_undisputed_record_mutates_nothing() {
    let mut h = ClientTransactionHandler::new();
    h.add_transaction(Transaction::new(TxType::Deposit, 1, 1, Some(10000))).unwrap();
    let r = h.add_transaction(Transaction::new(TxType::Chargeback, 1, 1, None));
    assert_eq!(r, Err(TransactionError::InvalidResolve));
    assert_eq!(h.clients().get(&1).unwrap().available(), 10000);
    assert_eq!(h.clients().get(&1).unwrap().held(), 0);
    assert!(!h.transactions().get(&1).unwrap().charged_back());
}

#[test]
fn deposit_without_amount_is_malformed() {
    let mut h = ClientTransactionHandler::new();
    let r = h.add_transaction(Transaction::new(TxType::Deposit, 1, 1, None));
    assert_eq!(r, Err(TransactionError::InvalidTransactionRecord));
    assert!(!h.clients().contains_key(&1));
    assert!(!h.transactions().contains_key(&1));
}

#[test]
fn deposit_to_locked_account_is_rejected() {
    let mut h = ClientTransactionHandler::new();
    h.add_transaction(Transaction::new(TxType::Deposit, 1, 1, Some(10000))).unwrap();
    h.add_transaction(Transaction::new(TxType::Dispute, 1, 1, None)).unwrap();
    h.add_transaction(Transaction::new(TxType::Chargeback, 1, 1, None)).unwrap();
    let r = h.add_transaction(Transaction::new(TxType::Deposit, 1, 2, Some(10000)));
    assert_eq!(r, Err(TransactionError::ClientIsLocked(1)));
    assert_eq!(h.clients().get(&1).unwrap().total(), 0);
}

#[test]
fn deposit_past_the_largest_balance_is_rejected() {
    let mut h = ClientTransactionHandler::new();
    h.add_transaction(Transaction::new(TxType::Deposit, 1, 1, Some(u64::MAX))).unwrap();
    let r = h.add_transaction(Transaction::new(TxType::Deposit, 1, 2, Some(1)));
    assert_eq!(r, Err(TransactionError::BalanceOverflow { client_id: 1, amount: 1 }));
    assert_eq!(h.clients().get(&1).unwrap().available(), u64::MAX);
}

#[test]
fn charged_back_record_cannot_be_disputed_again() {
    let mut h = ClientTransactionHandler::new();
    h.add_transaction(Transaction::new(TxType::Deposit, 1, 1, Some(10000))).unwrap();
    h.add_transaction(Transaction::new(TxType::Deposit, 1, 2, Some(10000))).unwrap();
    h.add_transaction(Transaction::new(TxType::Dispute, 1, 1, None)).unwrap();
    h.add_transaction(Transaction::new(TxType::Chargeback, 1, 1, None)).unwrap();
    let r = h.add_transaction(Transaction::new(TxType::Dispute, 1, 1, None));
    assert_eq!(r, Err(TransactionError::InvalidDispute));
    assert_eq!(h.clients().get(&1).unwrap().total(), 10000);
}

#[test]
fn second_chargeback_on_locked_account_completes() {
    // Two records of one client disputed in turn: the second chargeback
    // finds the account already locked and still adjusts the balance.
    let mut h = ClientTransactionHandler::new();
    h.add_transaction(Transaction::new(TxType::Deposit, 1, 1, Some(10000))).unwrap();
    h.add_transaction(Transaction::new(TxType::Deposit, 1, 2, Some(5000))).unwrap();
    h.add_transaction(Transaction::new(TxType::Dispute, 1, 1, None)).unwrap();
    h.add_transaction(Transaction::new(TxType::Chargeback, 1, 1, None)).unwrap();
    assert_eq!(h.clients().get(&1).unwrap().total(), 5000);

    h.add_transaction(Transaction::new(TxType::Dispute, 1, 2, None)).unwrap();
    h.add_transaction(Transaction::new(TxType::Chargeback, 1, 2, None)).unwrap();
    let c = h.clients().get(&1).unwrap();
    assert_eq!(c.total(), 0);
    assert_eq!(c.as_tuple(), (1, 0, 0, 0, true));
}

#[test]
fn resolve_of_undisputed_record_keeps_flags() {
    let mut h = ClientTransactionHandler::new();
    h.add_transaction(Transaction::new(TxType::Deposit, 1, 1, Some(10000))).unwrap();
    h.add_transaction(Transaction::new(TxType::Dispute, 1, 1, None)).unwrap();
    h.add_transaction(Transaction::new(TxType::Resolve, 1, 1, None)).unwrap();
    // a second resolve finds the record undisputed and changes nothing
    let r = h.add_transaction(Transaction::new(TxType::Resolve, 1, 1, None));
    assert_eq!(r, Err(TransactionError::InvalidResolve));
    assert_eq!(h.clients().get(&1).unwrap().available(), 10000);
    assert!(!h.transactions().get(&1).unwrap().disputed());
}
