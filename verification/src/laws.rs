//! Engine-wide laws, stated against `apply_spec` — the specification that
//! `add_transaction` is proved to implement — and against the client
//! balance operations.

use crate::client::Client;
use crate::client_transaction_handler::apply_spec;
use crate::client_transaction_handler::client_for;
use crate::client_transaction_handler::ledger_wf;
use crate::client_transaction_handler::LedgerView;
use crate::errors::TransactionError;
use crate::transaction::Transaction;
use crate::transaction::TxType;
use vstd::prelude::*;

verus! {

/// Whether one deposit or withdrawal succeeds on account `c`: the account
/// is unlocked and the amount is covered — by headroom below the largest
/// representable balance for a deposit, by the available funds for a
/// withdrawal.
pub open spec fn money_op_valid(c: Client, op: (TxType, u64)) -> bool {
    &&& !c.locked
    &&& (op.0 == TxType::Deposit || op.0 == TxType::Withdrawal)
    &&& (op.0 == TxType::Deposit ==> op.1 <= u64::MAX - c.spec_total())
    &&& (op.0 == TxType::Withdrawal ==> op.1 <= c.available)
}

/// The account after one successful deposit or withdrawal, exactly as
/// `Client::deposit` and `Client::withdraw` ensure it.
pub open spec fn money_op_applied(c: Client, op: (TxType, u64)) -> Client {
    if op.0 == TxType::Deposit {
        Client { available: (c.available + op.1) as u64, ..c }
    } else {
        Client { available: (c.available - op.1) as u64, ..c }
    }
}

/// Whether every operation in the sequence succeeds, each against the
/// account state the previous ones left behind.
pub open spec fn ops_valid(c: Client, ops: Seq<(TxType, u64)>) -> bool
    decreases ops.len(),
{
    ops.len() == 0 || (money_op_valid(c, ops[0]) && ops_valid(money_op_applied(c, ops[0]), ops.skip(1)))
}

/// The account after the whole sequence of deposits and withdrawals.
pub open spec fn run_ops(c: Client, ops: Seq<(TxType, u64)>) -> Client
    decreases ops.len(),
{
    if ops.len() == 0 {
        c
    } else {
        run_ops(money_op_applied(c, ops[0]), ops.skip(1))
    }
}

/// The sum of all deposited amounts in the sequence.
pub open spec fn sum_deposits(ops: Seq<(TxType, u64)>) -> int
    decreases ops.len(),
{
    if ops.len() == 0 {
        0
    } else {
        (if ops[0].0 == TxType::Deposit {
            ops[0].1 as int
        } else {
            0
        }) + sum_deposits(ops.skip(1))
    }
}

/// The sum of all withdrawn amounts in the sequence.
pub open spec fn sum_withdrawals(ops: Seq<(TxType, u64)>) -> int
    decreases ops.len(),
{
    if ops.len() == 0 {
        0
    } else {
        (if ops[0].0 == TxType::Withdrawal {
            ops[0].1 as int
        } else {
            0
        }) + sum_withdrawals(ops.skip(1))
    }
}

/// LAW: after any sequence of valid deposits and withdrawals, a client's
/// total balance has moved by exactly the sum of the deposits minus the
/// sum of the withdrawals — and the account is still well formed.
pub proof fn lemma_total_is_net_of_deposits_and_withdrawals(c: Client, ops: Seq<(TxType, u64)>)
    requires
        c.wf(),
        ops_valid(c, ops),
    ensures
        run_ops(c, ops).wf(),
        run_ops(c, ops).spec_total() == c.spec_total() + sum_deposits(ops) - sum_withdrawals(ops),
    decreases ops.len(),
{
    if ops.len() > 0 {
        let c1 = money_op_applied(c, ops[0]);
        assert(c1.wf());
        lemma_total_is_net_of_deposits_and_withdrawals(c1, ops.skip(1));
    }
}

/// LAW: a freshly created client's total balance after any sequence of
/// valid deposits and withdrawals is exactly the sum of the deposits minus
/// the sum of the withdrawals.
pub proof fn lemma_fresh_client_total(id: u16, ops: Seq<(TxType, u64)>)
    requires
        ops_valid(Client::initial(id), ops),
    ensures
        run_ops(Client::initial(id), ops).spec_total() == sum_deposits(ops) - sum_withdrawals(ops),
{
    lemma_total_is_net_of_deposits_and_withdrawals(Client::initial(id), ops);
}

/// LAW: a withdrawal for more than the client's available funds fails and
/// leaves the whole ledger untouched.
pub proof fn lemma_overdraft_changes_nothing(s: LedgerView, t: Transaction, a: u64)
    requires
        t.tx_type == TxType::Withdrawal,
        t.amount == Some(a),
        a > client_for(s, t.client_id).available,
    ensures
        apply_spec(s, t).0 == s,
        apply_spec(s, t).1 is Err,
{
}

/// LAW: disputing a logged, undisputed deposit of amount `a` whose owner
/// has exactly `a` available and nothing held moves the full amount into
/// held funds — available drops to zero, held rises to `a` — while the
/// total balance stays unchanged and the record is marked disputed.
pub proof fn lemma_dispute_moves_funds_to_held(s: LedgerView, d: Transaction, a: u64)
    requires
        ledger_wf(s),
        d.tx_type == TxType::Dispute,
        s.transactions.contains_key(d.tx_id),
        s.transactions[d.tx_id].tx_type == TxType::Deposit,
        s.transactions[d.tx_id].amount == Some(a),
        !s.transactions[d.tx_id].disputed,
        !s.transactions[d.tx_id].charged_back,
        d.client_id == s.transactions[d.tx_id].client_id,
        s.clients.contains_key(d.client_id),
        s.clients[d.client_id].available == a,
        s.clients[d.client_id].held == 0,
    ensures
        apply_spec(s, d).1 == Ok::<(), TransactionError>(()),
        apply_spec(s, d).0.clients[d.client_id].available == 0,
        apply_spec(s, d).0.clients[d.client_id].held == a,
        apply_spec(s, d).0.clients[d.client_id].spec_total() == s.clients[d.client_id].spec_total(),
        apply_spec(s, d).0.transactions[d.tx_id].disputed,
{
    assert(s.transactions[d.tx_id].tx_id == d.tx_id);
}

/// LAW: resolving the dispute of the previous law returns the owner
/// exactly to its old state — `a` available, nothing held — and the
/// record exactly to its old, undisputed state.
pub proof fn lemma_resolve_restores_dispute(
    s: LedgerView,
    d: Transaction,
    rr: Transaction,
    a: u64,
)
    requires
        ledger_wf(s),
        d.tx_type == TxType::Dispute,
        s.transactions.contains_key(d.tx_id),
        s.transactions[d.tx_id].tx_type == TxType::Deposit,
        s.transactions[d.tx_id].amount == Some(a),
        !s.transactions[d.tx_id].disputed,
        !s.transactions[d.tx_id].charged_back,
        d.client_id == s.transactions[d.tx_id].client_id,
        s.clients.contains_key(d.client_id),
        s.clients[d.client_id].available == a,
        s.clients[d.client_id].held == 0,
        rr.tx_type == TxType::Resolve,
        rr.tx_id == d.tx_id,
        rr.client_id == d.client_id,
    ensures
        apply_spec(apply_spec(s, d).0, rr).1 == Ok::<(), TransactionError>(()),
        apply_spec(apply_spec(s, d).0, rr).0.clients[d.client_id] == s.clients[d.client_id],
        apply_spec(apply_spec(s, d).0, rr).0.transactions[d.tx_id] == s.transactions[d.tx_id],
{
    let tx = s.transactions[d.tx_id];
    let c = s.clients[d.client_id];
    assert(tx.tx_id == d.tx_id && c.id == d.client_id);
    let s1 = apply_spec(s, d).0;
    assert(s1.transactions[d.tx_id] == (Transaction { disputed: true, ..tx }));
    assert(s1.clients[d.client_id] == (Client { available: 0, held: a, ..c }));
    let s2 = apply_spec(s1, rr).0;
    assert(s2.clients[d.client_id] == (Client { available: a, held: 0, ..c }));
    assert(s2.clients[d.client_id] == c);
    assert(s2.transactions[d.tx_id] == (Transaction { disputed: false, ..tx }));
    assert(s2.transactions[d.tx_id] == tx);
}

/// LAW: charging back the dispute of the same setting empties the account
/// — nothing available, nothing held — locks it, drops its total balance
/// by `a` for good, and leaves the record charged back, out of dispute.
pub proof fn lemma_chargeback_drops_total_and_locks(
    s: LedgerView,
    d: Transaction,
    cb: Transaction,
    a: u64,
)
    requires
        ledger_wf(s),
        d.tx_type == TxType::Dispute,
        s.transactions.contains_key(d.tx_id),
        s.transactions[d.tx_id].tx_type == TxType::Deposit,
        s.transactions[d.tx_id].amount == Some(a),
        !s.transactions[d.tx_id].disputed,
        !s.transactions[d.tx_id].charged_back,
        d.client_id == s.transactions[d.tx_id].client_id,
        s.clients.contains_key(d.client_id),
        s.clients[d.client_id].available == a,
        s.clients[d.client_id].held == 0,
        cb.tx_type == TxType::Chargeback,
        cb.tx_id == d.tx_id,
        cb.client_id == d.client_id,
    ensures
        apply_spec(apply_spec(s, d).0, cb).1 == Ok::<(), TransactionError>(()),
        apply_spec(apply_spec(s, d).0, cb).0.clients[d.client_id].available == 0,
        apply_spec(apply_spec(s, d).0, cb).0.clients[d.client_id].held == 0,
        apply_spec(apply_spec(s, d).0, cb).0.clients[d.client_id].locked,
        apply_spec(apply_spec(s, d).0, cb).0.clients[d.client_id].spec_total()
            == s.clients[d.client_id].spec_total() - a,
        apply_spec(apply_spec(s, d).0, cb).0.transactions[d.tx_id].charged_back,
        !apply_spec(apply_spec(s, d).0, cb).0.transactions[d.tx_id].disputed,
{
    let tx = s.transactions[d.tx_id];
    let c = s.clients[d.client_id];
    assert(tx.tx_id == d.tx_id && c.id == d.client_id);
    let s1 = apply_spec(s, d).0;
    assert(s1.transactions[d.tx_id] == (Transaction { disputed: true, ..tx }));
    assert(s1.clients[d.client_id] == (Client { available: 0, held: a, ..c }));
    let s2 = apply_spec(s1, cb).0;
    assert(s2.clients[d.client_id] == (Client { available: 0, held: 0, locked: true, ..c }));
    assert(s2.transactions[d.tx_id] == (Transaction {
        disputed: false,
        charged_back: true,
        ..tx
    }));
}

/// LAW: disputing a transaction id that was never logged fails with
/// `InvalidDispute` and mutates nothing.
pub proof fn lemma_dispute_unknown_id_fails(s: LedgerView, d: Transaction)
    requires
        d.tx_type == TxType::Dispute,
        !s.transactions.contains_key(d.tx_id),
    ensures
        apply_spec(s, d).0 == s,
        apply_spec(s, d).1 == Err::<(), TransactionError>(TransactionError::InvalidDispute),
{
}

/// LAW: resolving or charging back a logged record that is not currently
/// disputed fails and mutates nothing.
pub proof fn lemma_undisputed_resolve_or_chargeback_fails(s: LedgerView, t: Transaction)
    requires
        t.tx_type == TxType::Resolve || t.tx_type == TxType::Chargeback,
        s.transactions.contains_key(t.tx_id),
        !s.transactions[t.tx_id].disputed,
    ensures
        apply_spec(s, t).0 == s,
        apply_spec(s, t).1 is Err,
{
}

/// LAW: a deposit or withdrawal whose transaction id is already logged
/// fails with `TransactionExistsAlready` and mutates nothing.
pub proof fn lemma_duplicate_transaction_fails(s: LedgerView, t: Transaction)
    requires
        t.tx_type == TxType::Deposit || t.tx_type == TxType::Withdrawal,
        t.amount is Some,
        s.transactions.contains_key(t.tx_id),
    ensures
        apply_spec(s, t).0 == s,
        apply_spec(s, t).1 == Err::<(), TransactionError>(TransactionError::TransactionExistsAlready),
{
}

} // verus!
