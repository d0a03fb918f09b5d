//! A small transaction-processing engine for client accounts.
//!
//! A stream of transaction records (deposits, withdrawals, disputes,
//! resolves, chargebacks) is applied one record at a time to a ledger of
//! client accounts. Monetary amounts are fixed-point decimals held as
//! integer counts of ten-thousandths of a currency unit, so every balance
//! operation is exact.

pub mod amount;
pub mod client;
pub mod client_transaction_handler;
pub mod errors;
pub mod laws;
pub mod transaction;
