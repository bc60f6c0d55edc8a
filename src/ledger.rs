use std::collections::HashMap;

use vstd::prelude::*;

use crate::error::TransactionError;
use crate::model::{
    AccountModel, Amount, Balance, ClientAccount, ClientId, LedgerModel, LedgerTransaction,
    Transaction, TxId, TxStatus, TxType,
};

verus! {

broadcast use vstd::std_specs::hash::group_hash_axioms;

// ---------------------------------------------------------------------------------------
// What each kind of transaction does to the ledger
// ---------------------------------------------------------------------------------------

/// A deposit: rejected if the id is taken, the amount missing or negative, or the account
/// locked; otherwise credits `available` and `total` (opening the account if need be) and
/// records the deposit as `Valid`.
pub open spec fn deposit_outcome(s: LedgerModel, t: Transaction) -> (
    Result<(), TransactionError>,
    LedgerModel,
) {
    if s.transactions.contains_key(t.tx_id) {
        (Err(TransactionError::DuplicateTransaction { id: t.tx_id }), s)
    } else if t.amount is None {
        (Err(TransactionError::MissingAmount { tx_type: t.tx_type, id: t.tx_id }), s)
    } else if t.amount.unwrap() < 0 {
        (
            Err(
                TransactionError::MustBePositive {
                    tx_type: t.tx_type,
                    id: t.tx_id,
                    amount: t.amount.unwrap(),
                },
            ),
            s,
        )
    } else {
        let a = t.amount.unwrap() as int;
        let acct = s.account_or_fresh(t.client_id);
        if acct.locked {
            (Err(TransactionError::AccountLocked { id: t.client_id }), s)
        } else {
            (
                Ok(()),
                LedgerModel {
                    accounts: s.accounts.insert(
                        t.client_id,
                        AccountModel {
                            available: acct.available + a,
                            total: acct.total + a,
                            ..acct
                        },
                    ),
                    transactions: s.transactions.insert(t.tx_id, LedgerTransaction::recorded(t)),
                    applied: s.applied + 1,
                },
            )
        }
    }
}

/// A withdrawal: rejected if the id is taken, the amount missing or negative, the client
/// has no account, the account is locked or `available` is below the amount; otherwise
/// debits `available` and `total` and records the withdrawal as `Valid`.
pub open spec fn withdrawal_outcome(s: LedgerModel, t: Transaction) -> (
    Result<(), TransactionError>,
    LedgerModel,
) {
    if s.transactions.contains_key(t.tx_id) {
        (Err(TransactionError::DuplicateTransaction { id: t.tx_id }), s)
    } else if t.amount is None {
        (Err(TransactionError::MissingAmount { tx_type: t.tx_type, id: t.tx_id }), s)
    } else if t.amount.unwrap() < 0 {
        (
            Err(
                TransactionError::MustBePositive {
                    tx_type: t.tx_type,
                    id: t.tx_id,
                    amount: t.amount.unwrap(),
                },
            ),
            s,
        )
    } else if !s.accounts.contains_key(t.client_id) {
        (Err(TransactionError::AccountNotFound { id: t.client_id }), s)
    } else {
        let a = t.amount.unwrap() as int;
        let acct = s.accounts[t.client_id];
        if acct.locked {
            (Err(TransactionError::AccountLocked { id: t.client_id }), s)
        } else if acct.available < a {
            (
                Err(
                    TransactionError::BalanceInsufficient {
                        available: acct.available as Balance,
                        tx_type: t.tx_type,
                        id: t.tx_id,
                        amount: t.amount.unwrap(),
                    },
                ),
                s,
            )
        } else {
            (
                Ok(()),
                LedgerModel {
                    accounts: s.accounts.insert(
                        t.client_id,
                        AccountModel {
                            available: acct.available - a,
                            total: acct.total - a,
                            ..acct
                        },
                    ),
                    transactions: s.transactions.insert(t.tx_id, LedgerTransaction::recorded(t)),
                    applied: s.applied + 1,
                },
            )
        }
    }
}

/// The checks that dispute, resolve and chargeback share. The record must refer to a
/// deposit in status `need`, name the deposit's client, whose account must exist and be
/// unlocked, and the deposit must carry an amount, which is the result.
pub open spec fn referenced_deposit(s: LedgerModel, t: Transaction, need: TxStatus) -> Result<
    Amount,
    TransactionError,
> {
    if !s.transactions.contains_key(t.tx_id) || s.transactions[t.tx_id].tx_type
        != TxType::Deposit {
        Err(TransactionError::NotFound { tx_type: t.tx_type, id: t.tx_id })
    } else {
        let e = s.transactions[t.tx_id];
        if e.status != need {
            Err(TransactionError::IncorrectState { tx_type: t.tx_type, state: e.status, id: e.tx_id })
        } else if e.client_id != t.client_id {
            Err(TransactionError::ClientIdMismatch { expected: e.client_id, actual: t.client_id })
        } else if !s.accounts.contains_key(e.client_id) {
            Err(TransactionError::AccountNotFound { id: e.client_id })
        } else if s.accounts[e.client_id].locked {
            Err(TransactionError::AccountLocked { id: t.client_id })
        } else if e.amount is None {
            Err(TransactionError::MissingAmount { tx_type: t.tx_type, id: t.tx_id })
        } else {
            Ok(e.amount.unwrap())
        }
    }
}

/// `s` after the deposit `id`, of client `c`, takes status `st` and `c`'s account becomes
/// `acct`.
pub open spec fn settle(
    s: LedgerModel,
    id: TxId,
    st: TxStatus,
    c: ClientId,
    acct: AccountModel,
) -> LedgerModel {
    LedgerModel {
        accounts: s.accounts.insert(c, acct),
        transactions: s.transactions.insert(id, s.transactions[id].with_status(st)),
        applied: s.applied + 1,
    }
}

/// A dispute: after the shared checks (status `Valid`), marks the deposit `Disputed` and
/// moves its amount from `available` to `held`.
pub open spec fn dispute_outcome(s: LedgerModel, t: Transaction) -> (
    Result<(), TransactionError>,
    LedgerModel,
) {
    match referenced_deposit(s, t, TxStatus::Valid) {
        Err(e) => (Err(e), s),
        Ok(a) => {
            let acct = s.accounts[t.client_id];
            (
                Ok(()),
                settle(
                    s,
                    t.tx_id,
                    TxStatus::Disputed,
                    t.client_id,
                    AccountModel {
                        available: acct.available - a,
                        held: acct.held + a,
                        ..acct
                    },
                ),
            )
        },
    }
}

/// A resolve: after the shared checks (status `Disputed`), rejected if `held` is below the
/// amount; otherwise marks the deposit `Valid` and moves its amount from `held` back to
/// `available`.
pub open spec fn resolve_outcome(s: LedgerModel, t: Transaction) -> (
    Result<(), TransactionError>,
    LedgerModel,
) {
    match referenced_deposit(s, t, TxStatus::Disputed) {
        Err(e) => (Err(e), s),
        Ok(a) => {
            let acct = s.accounts[t.client_id];
            if acct.held < a {
                (
                    Err(
                        TransactionError::BalanceInsufficient {
                            available: acct.held as Balance,
                            tx_type: t.tx_type,
                            id: t.tx_id,
                            amount: a,
                        },
                    ),
                    s,
                )
            } else {
                (
                    Ok(()),
                    settle(
                        s,
                        t.tx_id,
                        TxStatus::Valid,
                        t.client_id,
                        AccountModel {
                            available: acct.available + a,
                            held: acct.held - a,
                            ..acct
                        },
                    ),
                )
            }
        },
    }
}

/// A chargeback: after the shared checks (status `Disputed`), rejected if `available` is
/// negative (reporting `available + amount`) or `held` is below the amount; otherwise marks
/// the deposit `Chargeback`, takes its amount out of `held` and `total`, and locks the
/// account.
pub open spec fn chargeback_outcome(s: LedgerModel, t: Transaction) -> (
    Result<(), TransactionError>,
    LedgerModel,
) {
    match referenced_deposit(s, t, TxStatus::Disputed) {
        Err(e) => (Err(e), s),
        Ok(a) => {
            let acct = s.accounts[t.client_id];
            if acct.available < 0 {
                (
                    Err(
                        TransactionError::BalanceInsufficient {
                            available: (acct.available + a) as Balance,
                            tx_type: t.tx_type,
                            id: t.tx_id,
                            amount: a,
                        },
                    ),
                    s,
                )
            } else if acct.held < a {
                (
                    Err(
                        TransactionError::BalanceInsufficient {
                            available: acct.held as Balance,
                            tx_type: t.tx_type,
                            id: t.tx_id,
                            amount: a,
                        },
                    ),
                    s,
                )
            } else {
                (
                    Ok(()),
                    settle(
                        s,
                        t.tx_id,
                        TxStatus::Chargeback,
                        t.client_id,
                        AccountModel {
                            held: acct.held - a,
                            total: acct.total - a,
                            locked: true,
                            ..acct
                        },
                    ),
                )
            }
        },
    }
}

/// One record applied to the ledger, by its kind.
pub open spec fn process_outcome(s: LedgerModel, t: Transaction) -> (
    Result<(), TransactionError>,
    LedgerModel,
) {
    match t.tx_type {
        TxType::Deposit => deposit_outcome(s, t),
        TxType::Withdrawal => withdrawal_outcome(s, t),
        TxType::Dispute => dispute_outcome(s, t),
        TxType::Resolve => resolve_outcome(s, t),
        TxType::Chargeback => chargeback_outcome(s, t),
    }
}

// ---------------------------------------------------------------------------------------
// Each kind keeps the ledger invariant
// ---------------------------------------------------------------------------------------

/// A deposit keeps the ledger invariant.
pub proof fn lemma_deposit_keeps_wf(s: LedgerModel, t: Transaction)
    requires
        s.wf(),
    ensures
        deposit_outcome(s, t).1.wf(),
{
    let s2 = deposit_outcome(s, t).1;
    if deposit_outcome(s, t).0 is Ok {
        assert forall|c: ClientId| #[trigger] s2.accounts.contains_key(c) implies s2.accounts[c].balanced()
            && s2.accounts[c].client_id == c by {
            if c != t.client_id {
                assert(s.accounts.contains_key(c));
            }
        }
    }
}

/// A withdrawal keeps the ledger invariant.
pub proof fn lemma_withdrawal_keeps_wf(s: LedgerModel, t: Transaction)
    requires
        s.wf(),
    ensures
        withdrawal_outcome(s, t).1.wf(),
{
    let s2 = withdrawal_outcome(s, t).1;
    if withdrawal_outcome(s, t).0 is Ok {
        assert forall|c: ClientId| #[trigger] s2.accounts.contains_key(c) implies s2.accounts[c].balanced()
            && s2.accounts[c].client_id == c by {
            if c != t.client_id {
                assert(s.accounts.contains_key(c));
            }
        }
    }
}

/// Settling a deposit on record, with an account of the right client that is balanced,
/// keeps the ledger invariant.
pub proof fn lemma_settle_keeps_wf(
    s: LedgerModel,
    id: TxId,
    st: TxStatus,
    c: ClientId,
    acct: AccountModel,
)
    requires
        s.wf(),
        s.transactions.contains_key(id),
        acct.client_id == c,
        acct.balanced(),
    ensures
        settle(s, id, st, c, acct).wf(),
{
    let s2 = settle(s, id, st, c, acct);
    assert forall|k: ClientId| #[trigger] s2.accounts.contains_key(k) implies s2.accounts[k].balanced()
        && s2.accounts[k].client_id == k by {
        if k != c {
            assert(s.accounts.contains_key(k));
        }
    }
    assert forall|k: TxId| #[trigger] s2.transactions.contains_key(k) implies s2.transactions[k].tx_id
        == k && s2.transactions[k].amount is Some && s2.transactions[k].amount.unwrap() >= 0 by {
        if k != id {
            assert(s.transactions.contains_key(k));
        }
    }
}

/// A dispute keeps the ledger invariant.
pub proof fn lemma_dispute_keeps_wf(s: LedgerModel, t: Transaction)
    requires
        s.wf(),
    ensures
        dispute_outcome(s, t).1.wf(),
{
    if let Ok(a) = referenced_deposit(s, t, TxStatus::Valid) {
        let acct = s.accounts[t.client_id];
        lemma_settle_keeps_wf(
            s,
            t.tx_id,
            TxStatus::Disputed,
            t.client_id,
            AccountModel { available: acct.available - a, held: acct.held + a, ..acct },
        );
    }
}

/// A resolve keeps the ledger invariant.
pub proof fn lemma_resolve_keeps_wf(s: LedgerModel, t: Transaction)
    requires
        s.wf(),
    ensures
        resolve_outcome(s, t).1.wf(),
{
    if let Ok(a) = referenced_deposit(s, t, TxStatus::Disputed) {
        let acct = s.accounts[t.client_id];
        lemma_settle_keeps_wf(
            s,
            t.tx_id,
            TxStatus::Valid,
            t.client_id,
            AccountModel { available: acct.available + a, held: acct.held - a, ..acct },
        );
    }
}

/// A chargeback keeps the ledger invariant.
pub proof fn lemma_chargeback_keeps_wf(s: LedgerModel, t: Transaction)
    requires
        s.wf(),
    ensures
        chargeback_outcome(s, t).1.wf(),
{
    if let Ok(a) = referenced_deposit(s, t, TxStatus::Disputed) {
        let acct = s.accounts[t.client_id];
        lemma_settle_keeps_wf(
            s,
            t.tx_id,
            TxStatus::Chargeback,
            t.client_id,
            AccountModel { held: acct.held - a, total: acct.total - a, locked: true, ..acct },
        );
    }
}

// ---------------------------------------------------------------------------------------
// Shared checks
// ---------------------------------------------------------------------------------------

impl Transaction {
    /// Rejects a negative amount.
    pub fn check_positive(&self, amount: Amount) -> (r: Result<(), TransactionError>)
        ensures
            r == (if amount < 0 {
                Err(
                    TransactionError::MustBePositive {
                        tx_type: self.tx_type,
                        id: self.tx_id,
                        amount,
                    },
                )
            } else {
                Ok(())
            }),
    {
        if amount < 0 {
            Err(TransactionError::MustBePositive { tx_type: self.tx_type, id: self.tx_id, amount })
        } else {
            Ok(())
        }
    }

    /// Rejects an amount above the balance `available`.
    pub fn check_sufficient_balance(&self, available: Balance, amount: Amount) -> (r: Result<
        (),
        TransactionError,
    >)
        ensures
            r == (if available < amount {
                Err(
                    TransactionError::BalanceInsufficient {
                        available,
                        tx_type: self.tx_type,
                        id: self.tx_id,
                        amount,
                    },
                )
            } else {
                Ok(())
            }),
    {
        if available < amount as Balance {
            Err(
                TransactionError::BalanceInsufficient {
                    available,
                    tx_type: self.tx_type,
                    id: self.tx_id,
                    amount,
                },
            )
        } else {
            Ok(())
        }
    }

    /// Rejects a record whose client is not `client_id`, the client of the deposit it refers
    /// to.
    pub fn check_client_id_mismatch(&self, client_id: ClientId) -> (r: Result<(), TransactionError>)
        ensures
            r == (if client_id != self.client_id {
                Err(TransactionError::ClientIdMismatch { expected: client_id, actual: self.client_id })
            } else {
                Ok(())
            }),
    {
        if client_id != self.client_id {
            Err(TransactionError::ClientIdMismatch { expected: client_id, actual: self.client_id })
        } else {
            Ok(())
        }
    }

    /// Rejects an id that is already in the transaction table.
    pub fn check_duplicate(&self, transactions: &HashMap<TxId, LedgerTransaction>) -> (r: Result<
        (),
        TransactionError,
    >)
        ensures
            r == (if transactions@.contains_key(self.tx_id) {
                Err(TransactionError::DuplicateTransaction { id: self.tx_id })
            } else {
                Ok(())
            }),
    {
        if transactions.contains_key(&self.tx_id) {
            Err(TransactionError::DuplicateTransaction { id: self.tx_id })
        } else {
            Ok(())
        }
    }

    /// Rejects a locked account.
    pub fn check_locked(&self, account: &ClientAccount) -> (r: Result<(), TransactionError>)
        ensures
            r == (if account.locked {
                Err(TransactionError::AccountLocked { id: self.client_id })
            } else {
                Ok(())
            }),
    {
        if account.locked {
            Err(TransactionError::AccountLocked { id: self.client_id })
        } else {
            Ok(())
        }
    }
}

} // verus!
