use jellyfish::errors::TransactionError;
use jellyfish::transaction::Transaction;
use jellyfish::transaction::TxType;

#[test]
fn a_fresh_record_carries_its_fields_and_clear_flags() {
    let t = Transaction::new(TxType::Deposit, 7, 9, Some(12345));
    assert_eq!(t.id(), 9);
    assert_eq!(t.client_id(), 7);
    assert_eq!(t.tx_type(), TxType::Deposit);
    assert_eq!(t.amount(), Some(12345));
    assert!(!t.disputed());
    assert!(!t.charged_back());
}

#[test]
fn disputing_twice_fails() {
    let mut t = Transaction::new(TxType::Deposit, 1, 1, Some(10000));
    assert_eq!(t.dispute(), Ok(()));
    assert!(t.disputed());
    assert_eq!(t.dispute(), Err(TransactionError::InvalidDispute));
    assert!(t.disputed());
}

#[test]
fn resolving_an_undisputed_record_fails() {
    let mut t = Transaction::new(TxType::Deposit, 1, 1, Some(10000));
    assert_eq!(t.resolve(), Err(TransactionError::InvalidResolve));
    t.dispute().unwrap();
    assert_eq!(t.resolve(), Ok(()));
    assert!(!t.disputed());
}

#[test]
fn a_second_chargeback_fails() {
    let mut t = Transaction::new(TxType::Deposit, 1, 1, Some(10000));
    t.dispute().unwrap();
    t.resolve().unwrap();
    assert_eq!(t.chargeback(), Ok(()));
    assert!(t.charged_back());
    assert_eq!(t.chargeback(), Err(TransactionError::InvalidChargeback));
}

#[test]
fn a_charged_back_record_refuses_a_new_dispute() {
    let mut t = Transaction::new(TxType::Deposit, 1, 1, Some(10000));
    t.dispute().unwrap();
    t.resolve().unwrap();
    t.chargeback().unwrap();
    assert_eq!(t.dispute(), Err(TransactionError::InvalidDispute));
}

#[test]
fn the_five_kind_names_parse() {
    assert_eq!(TxType::from_str("deposit"), Ok(TxType::Deposit));
    assert_eq!(TxType::from_str("withdrawal"), Ok(TxType::Withdrawal));
    assert_eq!(TxType::from_str("dispute"), Ok(TxType::Dispute));
    assert_eq!(TxType::from_str("resolve"), Ok(TxType::Resolve));
    assert_eq!(TxType::from_str("chargeback"), Ok(TxType::Chargeback));
}

#[test]
fn unknown_kind_names_are_rejected() {
    assert_eq!(TxType::from_str(""), Err(TransactionError::UnknownTransactionType));
    assert_eq!(TxType::from_str("Deposit"), Err(TransactionError::UnknownTransactionType));
    assert_eq!(TxType::from_str("deposits"), Err(TransactionError::UnknownTransactionType));
    assert_eq!(TxType::from_str("refund"), Err(TransactionError::UnknownTransactionType));
}
