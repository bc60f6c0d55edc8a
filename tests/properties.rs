use std::collections::HashMap;

use tx_engine::error::TransactionError;
use tx_engine::model::{ClientAccount, LedgerTransaction, State, Transaction, TxId, TxStatus, TxType};

fn rec(tx_type: TxType, client_id: u16, tx_id: u32, amount: Option<i64>) -> Transaction {
    Transaction { tx_type, client_id, tx_id, amount }
}

fn deposit(c: u16, id: u32, a: i64) -> Transaction {
    rec(TxType::Deposit, c, id, Some(a))
}

fn withdrawal(c: u16, id: u32, a: i64) -> Transaction {
    rec(TxType::Withdrawal, c, id, Some(a))
}

fn refer(kind: TxType, c: u16, id: u32) -> Transaction {
    rec(kind, c, id, None)
}

fn snapshot(s: &State) -> (HashMap<u16, ClientAccount>, HashMap<TxId, LedgerTransaction>, u64) {
    (s.accounts.clone(), s.transactions.clone(), s.applied())
}

fn balances(s: &State, c: u16) -> (i128, i128, i128, bool) {
    let a = s.accounts[&c];
    (a.available, a.held, a.total, a.locked)
}

fn assert_balanced(s: &State) {
    for a in s.accounts.values() {
        assert_eq!(a.total, a.available + a.held);
    }
}

#[test]
fn total_is_available_plus_held_throughout() {
    let mut s = State::new();
    let records = [
        deposit(1, 1, 1_000_000),
        deposit(2, 2, 30_000),
        withdrawal(1, 3, 400_000),
        refer(TxType::Dispute, 1, 1),
        withdrawal(1, 4, 10),
        refer(TxType::Resolve, 1, 1),
        refer(TxType::Dispute, 2, 2),
        refer(TxType::Chargeback, 2, 2),
        deposit(2, 5, 1),
    ];
    for r in records {
        let _ = s.process(r);
        assert_balanced(&s);
    }
    assert_eq!(balances(&s, 1), (600_000, 0, 600_000, false));
    assert_eq!(balances(&s, 2), (0, 0, 0, true));
}

#[test]
fn tx_id_is_never_reassigned() {
    let mut s = State::new();
    s.process(deposit(1, 7, 500)).unwrap();
    let before = snapshot(&s);
    assert_eq!(s.process(deposit(2, 7, 900)), Err(TransactionError::DuplicateTransaction { id: 7 }));
    assert_eq!(s.process(withdrawal(1, 7, 100)), Err(TransactionError::DuplicateTransaction { id: 7 }));
    assert_eq!(snapshot(&s), before);
    assert_eq!(s.transactions[&7].amount(), Some(500));
    assert_eq!(s.transactions[&7].client_id(), 1);
}

#[test]
fn rejection_changes_nothing() {
    let mut s = State::new();
    s.process(deposit(1, 1, 1_000)).unwrap();
    s.process(deposit(2, 2, 1_000)).unwrap();
    let before = snapshot(&s);
    let rejected = [
        rec(TxType::Deposit, 1, 3, None),
        deposit(1, 3, -5),
        withdrawal(1, 3, 1_001),
        withdrawal(9, 3, 1),
        refer(TxType::Dispute, 1, 99),
        refer(TxType::Dispute, 2, 1),
        refer(TxType::Resolve, 1, 1),
        refer(TxType::Chargeback, 1, 1),
    ];
    for r in rejected {
        assert!(s.process(r).is_err(), "{:?}", r);
        assert_eq!(snapshot(&s), before);
    }
}

#[test]
fn withdrawal_cannot_be_disputed() {
    let mut s = State::new();
    s.process(deposit(1, 1, 1_000)).unwrap();
    s.process(withdrawal(1, 2, 400)).unwrap();
    let before = snapshot(&s);
    assert_eq!(
        s.process(refer(TxType::Dispute, 1, 2)),
        Err(TransactionError::NotFound { tx_type: TxType::Dispute, id: 2 })
    );
    assert_eq!(snapshot(&s), before);
}

#[test]
fn locked_account_rejects_everything() {
    let mut s = State::new();
    s.process(deposit(1, 1, 1_000)).unwrap();
    s.process(deposit(1, 2, 2_000)).unwrap();
    s.process(refer(TxType::Dispute, 1, 2)).unwrap();
    s.process(refer(TxType::Dispute, 1, 1)).unwrap();
    s.process(refer(TxType::Chargeback, 1, 1)).unwrap();
    assert!(s.accounts[&1].locked);
    let before = snapshot(&s);
    assert_eq!(s.process(deposit(1, 3, 5)), Err(TransactionError::AccountLocked { id: 1 }));
    assert_eq!(s.process(withdrawal(1, 4, 5)), Err(TransactionError::AccountLocked { id: 1 }));
    assert_eq!(s.process(refer(TxType::Resolve, 1, 2)), Err(TransactionError::AccountLocked { id: 1 }));
    assert_eq!(
        s.process(refer(TxType::Chargeback, 1, 2)),
        Err(TransactionError::AccountLocked { id: 1 })
    );
    assert_eq!(
        s.process(refer(TxType::Dispute, 1, 1)),
        Err(TransactionError::IncorrectState { tx_type: TxType::Dispute, state: TxStatus::Chargeback, id: 1 })
    );
    assert_eq!(snapshot(&s), before);
}

#[test]
fn dispute_then_chargeback_empties_and_locks() {
    let mut s = State::new();
    s.process(deposit(1, 1, 1_000_000)).unwrap();
    s.process(refer(TxType::Dispute, 1, 1)).unwrap();
    s.process(refer(TxType::Chargeback, 1, 1)).unwrap();
    assert_eq!(balances(&s, 1), (0, 0, 0, true));
    assert_eq!(s.transactions[&1].status(), TxStatus::Chargeback);
}

#[test]
fn arrears_block_chargeback_but_not_resolve() {
    let mut s = State::new();
    s.process(deposit(1, 1, 1_000_000)).unwrap();
    s.process(withdrawal(1, 2, 500_000)).unwrap();
    s.process(refer(TxType::Dispute, 1, 1)).unwrap();
    assert_eq!(balances(&s, 1), (-500_000, 1_000_000, 500_000, false));
    let before = snapshot(&s);
    assert_eq!(
        s.process(refer(TxType::Chargeback, 1, 1)),
        Err(TransactionError::BalanceInsufficient {
            available: 500_000,
            tx_type: TxType::Chargeback,
            id: 1,
            amount: 1_000_000
        })
    );
    assert_eq!(snapshot(&s), before);
    s.process(refer(TxType::Resolve, 1, 1)).unwrap();
    assert_eq!(balances(&s, 1), (500_000, 0, 500_000, false));
    assert_eq!(s.transactions[&1].status(), TxStatus::Valid);
}

#[test]
fn withdrawal_from_unknown_client_opens_nothing() {
    let mut s = State::new();
    assert_eq!(s.process(withdrawal(1, 1, 1_000_000)), Err(TransactionError::AccountNotFound { id: 1 }));
    assert!(s.accounts.is_empty());
    assert!(s.transactions.is_empty());
}

#[test]
fn total_is_net_of_deposits_and_withdrawals() {
    let mut s = State::new();
    let records = [
        deposit(1, 1, 1_234_567),
        deposit(2, 2, 10_000),
        withdrawal(1, 3, 234_567),
        deposit(1, 4, 5),
        withdrawal(2, 5, 10_000),
        withdrawal(1, 6, 1),
    ];
    for r in records {
        s.process(r).unwrap();
    }
    assert_eq!(s.accounts[&1].total, 1_234_567 - 234_567 + 5 - 1);
    assert_eq!(s.accounts[&2].total, 0);
    assert_eq!(s.applied(), 6);
}

#[test]
fn each_error_with_its_fields() {
    let mut s = State::new();
    assert_eq!(
        s.process(deposit(1, 1, -1)),
        Err(TransactionError::MustBePositive { tx_type: TxType::Deposit, id: 1, amount: -1 })
    );
    assert_eq!(
        s.process(rec(TxType::Withdrawal, 1, 1, None)),
        Err(TransactionError::MissingAmount { tx_type: TxType::Withdrawal, id: 1 })
    );
    s.process(deposit(1, 1, 100)).unwrap();
    assert_eq!(
        s.process(withdrawal(1, 2, 101)),
        Err(TransactionError::BalanceInsufficient {
            available: 100,
            tx_type: TxType::Withdrawal,
            id: 2,
            amount: 101
        })
    );
    assert_eq!(
        s.process(refer(TxType::Dispute, 3, 1)),
        Err(TransactionError::ClientIdMismatch { expected: 1, actual: 3 })
    );
    assert_eq!(
        s.process(refer(TxType::Resolve, 1, 1)),
        Err(TransactionError::IncorrectState { tx_type: TxType::Resolve, state: TxStatus::Valid, id: 1 })
    );
    assert_eq!(
        s.process(refer(TxType::Chargeback, 1, 8)),
        Err(TransactionError::NotFound { tx_type: TxType::Chargeback, id: 8 })
    );
}

#[test]
fn dispute_may_leave_available_negative() {
    let mut s = State::new();
    s.process(deposit(4, 1, 300)).unwrap();
    s.process(withdrawal(4, 2, 200)).unwrap();
    s.process(refer(TxType::Dispute, 4, 1)).unwrap();
    assert_eq!(balances(&s, 4), (-200, 300, 100, false));
    assert_eq!(s.transactions[&1].status(), TxStatus::Disputed);
}

#[test]
fn records_touch_only_their_own_client() {
    let mut s = State::new();
    s.process(deposit(1, 1, 700)).unwrap();
    s.process(deposit(2, 2, 900)).unwrap();
    let other = s.accounts[&2];
    s.process(deposit(1, 3, 200)).unwrap();
    s.process(refer(TxType::Dispute, 1, 1)).unwrap();
    s.process(refer(TxType::Chargeback, 1, 1)).unwrap();
    assert_eq!(s.accounts[&2], other);
    assert_eq!(s.transactions[&1].amount(), Some(700));
    assert_eq!(s.transactions[&1].tx_type(), TxType::Deposit);
}
