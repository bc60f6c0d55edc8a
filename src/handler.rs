use vstd::prelude::*;

use crate::error::TransactionError;
use crate::ledger::{
    chargeback_outcome, deposit_outcome, dispute_outcome, lemma_chargeback_keeps_wf,
    lemma_deposit_keeps_wf, lemma_dispute_keeps_wf, lemma_resolve_keeps_wf,
    lemma_withdrawal_keeps_wf, process_outcome, referenced_deposit, resolve_outcome,
    withdrawal_outcome,
};
use crate::model::{
    account_within, lemma_account_views_insert, lemma_bounded_insert, Amount, ClientAccount,
    ClientId, LedgerModel, LedgerTransaction, State, Transaction, TxId, TxStatus, TxType,
};

verus! {

broadcast use vstd::std_specs::hash::group_hash_axioms;

/// A record of one kind, ready to be applied to the ledger.
pub trait TransactionHandler: Sized {
    /// The record handled.
    spec fn record(&self) -> Transaction;

    /// The result of applying the record to `s`, and the ledger after it.
    spec fn outcome(&self, s: LedgerModel) -> (Result<(), TransactionError>, LedgerModel);

    fn client_id(&self) -> (r: ClientId)
        ensures
            r == self.record().client_id,
    ;

    fn tx_id(&self) -> (r: TxId)
        ensures
            r == self.record().tx_id,
    ;

    fn tx_type(&self) -> (r: TxType)
        ensures
            r == self.record().tx_type,
    ;

    fn amount(&self) -> (r: Option<Amount>)
        ensures
            r == self.record().amount,
    ;

    /// Applies the record to `state`: all checks come before any change, so a rejected
    /// record leaves `state` as it was.
    fn handle(self, state: &mut State) -> (r: Result<(), TransactionError>)
        requires
            old(state).wf(),
            old(state).has_room(),
        ensures
            (r, final(state)@) == self.outcome(old(state)@),
            r is Err ==> final(state)@ == old(state)@,
            final(state).wf(),
    ;
}

/// Looks up the deposit that a dispute, resolve or chargeback `t` refers to, with the
/// checks they share; on success returns the entry and the client's account.
fn find_deposit(state: &State, t: &Transaction, need: TxStatus) -> (r: Result<
    (LedgerTransaction, ClientAccount),
    TransactionError,
>)
    requires
        state.wf(),
    ensures
        match r {
            Ok((e, acct)) => {
                &&& referenced_deposit(state@, *t, need) == Ok::<Amount, TransactionError>(
                    e.amount.unwrap(),
                )
                &&& e.amount is Some
                &&& state.transactions@.contains_key(t.tx_id)
                &&& e == state.transactions@[t.tx_id]
                &&& e.client_id == t.client_id
                &&& state.accounts@.contains_key(t.client_id)
                &&& acct == state.accounts@[t.client_id]
            },
            Err(err) => referenced_deposit(state@, *t, need) == Err::<Amount, TransactionError>(
                err,
            ),
        },
{
    let e = match state.transactions.get(&t.tx_id) {
        Some(e) => *e,
        None => {
            return Err(TransactionError::NotFound { tx_type: t.tx_type, id: t.tx_id });
        },
    };
    if e.tx_type != TxType::Deposit {
        return Err(TransactionError::NotFound { tx_type: t.tx_type, id: t.tx_id });
    }
    if e.status != need {
        return Err(TransactionError::IncorrectState { tx_type: t.tx_type, state: e.status, id: e.tx_id });
    }
    if let Err(err) = t.check_client_id_mismatch(e.client_id) {
        return Err(err);
    }
    let acct = match state.accounts.get(&e.client_id) {
        Some(a) => *a,
        None => {
            return Err(TransactionError::AccountNotFound { id: e.client_id });
        },
    };
    if let Err(err) = t.check_locked(&acct) {
        return Err(err);
    }
    if e.amount.is_none() {
        return Err(TransactionError::MissingAmount { tx_type: t.tx_type, id: t.tx_id });
    }
    Ok((e, acct))
}

/// A deposit record.
pub struct Deposit {
    pub inner: Transaction,
}

impl Deposit {
    pub fn new(tx: Transaction) -> (r: Deposit)
        ensures
            r.inner == tx,
    {
        Deposit { inner: tx }
    }
}

impl TransactionHandler for Deposit {
    open spec fn record(&self) -> Transaction {
        self.inner
    }

    open spec fn outcome(&self, s: LedgerModel) -> (Result<(), TransactionError>, LedgerModel) {
        deposit_outcome(s, self.inner)
    }

    fn client_id(&self) -> (r: ClientId) {
        self.inner.client_id
    }

    fn tx_id(&self) -> (r: TxId) {
        self.inner.tx_id
    }

    fn tx_type(&self) -> (r: TxType) {
        self.inner.tx_type
    }

    fn amount(&self) -> (r: Option<Amount>) {
        self.inner.amount
    }

    fn handle(self, state: &mut State) -> (r: Result<(), TransactionError>) {
        let t = self.inner;
        if let Err(e) = t.check_duplicate(&state.transactions) {
            return Err(e);
        }
        let amount = match t.amount {
            Some(a) => a,
            None => {
                return Err(TransactionError::MissingAmount { tx_type: t.tx_type, id: t.tx_id });
            },
        };
        if let Err(e) = t.check_positive(amount) {
            return Err(e);
        }
        let acct = match state.accounts.get(&t.client_id) {
            Some(a) => *a,
            None => ClientAccount::new(t.client_id),
        };
        if let Err(e) = t.check_locked(&acct) {
            return Err(e);
        }
        let ghost s0 = state@;
        let ghost m0 = state.accounts@;
        let n = state.applied;
        proof {
            if m0.contains_key(t.client_id) {
                assert(account_within(m0[t.client_id]@, n as nat));
            }
        }
        let updated = ClientAccount {
            available: acct.available + amount as i128,
            total: acct.total + amount as i128,
            ..acct
        };
        state.accounts.insert(t.client_id, updated);
        state.transactions.insert(
            t.tx_id,
            LedgerTransaction {
                tx_type: t.tx_type,
                client_id: t.client_id,
                tx_id: t.tx_id,
                amount: t.amount,
                status: TxStatus::Valid,
            },
        );
        state.applied = n + 1;
        proof {
            lemma_account_views_insert(m0, t.client_id, updated);
            lemma_bounded_insert(m0, n as nat, t.client_id, updated);
            lemma_deposit_keeps_wf(s0, t);
            assert(state@ == deposit_outcome(s0, t).1);
        }
        Ok(())
    }
}

/// A withdrawal record.
pub struct Withdrawal {
    pub inner: Transaction,
}

impl Withdrawal {
    pub fn new(tx: Transaction) -> (r: Withdrawal)
        ensures
            r.inner == tx,
    {
        Withdrawal { inner: tx }
    }
}

impl TransactionHandler for Withdrawal {
    open spec fn record(&self) -> Transaction {
        self.inner
    }

    open spec fn outcome(&self, s: LedgerModel) -> (Result<(), TransactionError>, LedgerModel) {
        withdrawal_outcome(s, self.inner)
    }

    fn client_id(&self) -> (r: ClientId) {
        self.inner.client_id
    }

    fn tx_id(&self) -> (r: TxId) {
        self.inner.tx_id
    }

    fn tx_type(&self) -> (r: TxType) {
        self.inner.tx_type
    }

    fn amount(&self) -> (r: Option<Amount>) {
        self.inner.amount
    }

    fn handle(self, state: &mut State) -> (r: Result<(), TransactionError>) {
        let t = self.inner;
        if let Err(e) = t.check_duplicate(&state.transactions) {
            return Err(e);
        }
        let amount = match t.amount {
            Some(a) => a,
            None => {
                return Err(TransactionError::MissingAmount { tx_type: t.tx_type, id: t.tx_id });
            },
        };
        if let Err(e) = t.check_positive(amount) {
            return Err(e);
        }
        let acct = match state.accounts.get(&t.client_id) {
            Some(a) => *a,
            None => {
                return Err(TransactionError::AccountNotFound { id: t.client_id });
            },
        };
        if let Err(e) = t.check_locked(&acct) {
            return Err(e);
        }
        if let Err(e) = t.check_sufficient_balance(acct.available, amount) {
            return Err(e);
        }
        let ghost s0 = state@;
        let ghost m0 = state.accounts@;
        let n = state.applied;
        proof {
            assert(account_within(m0[t.client_id]@, n as nat));
        }
        let updated = ClientAccount {
            available: acct.available - amount as i128,
            total: acct.total - amount as i128,
            ..acct
        };
        state.accounts.insert(t.client_id, updated);
        state.transactions.insert(
            t.tx_id,
            LedgerTransaction {
                tx_type: t.tx_type,
                client_id: t.client_id,
                tx_id: t.tx_id,
                amount: t.amount,
                status: TxStatus::Valid,
            },
        );
        state.applied = n + 1;
        proof {
            lemma_account_views_insert(m0, t.client_id, updated);
            lemma_bounded_insert(m0, n as nat, t.client_id, updated);
            lemma_withdrawal_keeps_wf(s0, t);
            assert(state@ == withdrawal_outcome(s0, t).1);
        }
        Ok(())
    }
}

/// A dispute record: it refers to an earlier deposit by its id.
pub struct Dispute {
    pub inner: Transaction,
}

impl Dispute {
    pub fn new(tx: Transaction) -> (r: Dispute)
        ensures
            r.inner == tx,
    {
        Dispute { inner: tx }
    }
}

impl TransactionHandler for Dispute {
    open spec fn record(&self) -> Transaction {
        self.inner
    }

    open spec fn outcome(&self, s: LedgerModel) -> (Result<(), TransactionError>, LedgerModel) {
        dispute_outcome(s, self.inner)
    }

    fn client_id(&self) -> (r: ClientId) {
        self.inner.client_id
    }

    fn tx_id(&self) -> (r: TxId) {
        self.inner.tx_id
    }

    fn tx_type(&self) -> (r: TxType) {
        self.inner.tx_type
    }

    fn amount(&self) -> (r: Option<Amount>) {
        self.inner.amount
    }

    fn handle(self, state: &mut State) -> (r: Result<(), TransactionError>) {
        let t = self.inner;
        let (e, acct) = match find_deposit(state, &t, TxStatus::Valid) {
            Ok(found) => found,
            Err(err) => {
                return Err(err);
            },
        };
        let amount = e.amount.unwrap();
        proof {
            assert(account_within(state.accounts@[t.client_id]@, state.applied as nat));
        }
        // `available` may go negative here; a chargeback checks for that later.
        let updated = ClientAccount {
            available: acct.available - amount as i128,
            held: acct.held + amount as i128,
            ..acct
        };
        let ghost s0 = state@;
        let ghost m0 = state.accounts@;
        let n = state.applied;
        proof {
            assert(account_within(m0[t.client_id]@, n as nat));
        }
        let mut entry = e;
        entry.set_status(TxStatus::Disputed);
        state.accounts.insert(t.client_id, updated);
        state.transactions.insert(t.tx_id, entry);
        state.applied = n + 1;
        proof {
            lemma_account_views_insert(m0, t.client_id, updated);
            lemma_bounded_insert(m0, n as nat, t.client_id, updated);
            lemma_dispute_keeps_wf(s0, t);
            assert(state@ == dispute_outcome(s0, t).1);
        }
        Ok(())
    }
}

/// A resolve record: it releases the hold of a disputed deposit.
pub struct Resolve {
    pub inner: Transaction,
}

impl Resolve {
    pub fn new(tx: Transaction) -> (r: Resolve)
        ensures
            r.inner == tx,
    {
        Resolve { inner: tx }
    }
}

impl TransactionHandler for Resolve {
    open spec fn record(&self) -> Transaction {
        self.inner
    }

    open spec fn outcome(&self, s: LedgerModel) -> (Result<(), TransactionError>, LedgerModel) {
        resolve_outcome(s, self.inner)
    }

    fn client_id(&self) -> (r: ClientId) {
        self.inner.client_id
    }

    fn tx_id(&self) -> (r: TxId) {
        self.inner.tx_id
    }

    fn tx_type(&self) -> (r: TxType) {
        self.inner.tx_type
    }

    fn amount(&self) -> (r: Option<Amount>) {
        self.inner.amount
    }

    fn handle(self, state: &mut State) -> (r: Result<(), TransactionError>) {
        let t = self.inner;
        let (e, acct) = match find_deposit(state, &t, TxStatus::Disputed) {
            Ok(found) => found,
            Err(err) => {
                return Err(err);
            },
        };
        let amount = e.amount.unwrap();
        if let Err(err) = t.check_sufficient_balance(acct.held, amount) {
            return Err(err);
        }
        proof {
            assert(account_within(state.accounts@[t.client_id]@, state.applied as nat));
        }
        let updated = ClientAccount {
            available: acct.available + amount as i128,
            held: acct.held - amount as i128,
            ..acct
        };
        let ghost s0 = state@;
        let ghost m0 = state.accounts@;
        let n = state.applied;
        proof {
            assert(account_within(m0[t.client_id]@, n as nat));
        }
        let mut entry = e;
        entry.set_status(TxStatus::Valid);
        state.accounts.insert(t.client_id, updated);
        state.transactions.insert(t.tx_id, entry);
        state.applied = n + 1;
        proof {
            lemma_account_views_insert(m0, t.client_id, updated);
            lemma_bounded_insert(m0, n as nat, t.client_id, updated);
            lemma_resolve_keeps_wf(s0, t);
            assert(state@ == resolve_outcome(s0, t).1);
        }
        Ok(())
    }
}

/// A chargeback record: it reverses a disputed deposit and locks the account.
pub struct Chargeback {
    pub inner: Transaction,
}

impl Chargeback {
    pub fn new(tx: Transaction) -> (r: Chargeback)
        ensures
            r.inner == tx,
    {
        Chargeback { inner: tx }
    }
}

impl TransactionHandler for Chargeback {
    open spec fn record(&self) -> Transaction {
        self.inner
    }

    open spec fn outcome(&self, s: LedgerModel) -> (Result<(), TransactionError>, LedgerModel) {
        chargeback_outcome(s, self.inner)
    }

    fn client_id(&self) -> (r: ClientId) {
        self.inner.client_id
    }

    fn tx_id(&self) -> (r: TxId) {
        self.inner.tx_id
    }

    fn tx_type(&self) -> (r: TxType) {
        self.inner.tx_type
    }

    fn amount(&self) -> (r: Option<Amount>) {
        self.inner.amount
    }

    fn handle(self, state: &mut State) -> (r: Result<(), TransactionError>) {
        let t = self.inner;
        let (e, acct) = match find_deposit(state, &t, TxStatus::Disputed) {
            Ok(found) => found,
            Err(err) => {
                return Err(err);
            },
        };
        let amount = e.amount.unwrap();
        proof {
            assert(account_within(state.accounts@[t.client_id]@, state.applied as nat));
        }
        // An earlier dispute may have left the account in arrears: the deposit cannot be
        // reversed then.
        if acct.available < 0 {
            return Err(
                TransactionError::BalanceInsufficient {
                    available: acct.available + amount as i128,
                    tx_type: t.tx_type,
                    id: t.tx_id,
                    amount,
                },
            );
        }
        if let Err(err) = t.check_sufficient_balance(acct.held, amount) {
            return Err(err);
        }
        let updated = ClientAccount {
            held: acct.held - amount as i128,
            total: acct.total - amount as i128,
            locked: true,
            ..acct
        };
        let ghost s0 = state@;
        let ghost m0 = state.accounts@;
        let n = state.applied;
        proof {
            assert(account_within(m0[t.client_id]@, n as nat));
        }
        let mut entry = e;
        entry.set_status(TxStatus::Chargeback);
        state.accounts.insert(t.client_id, updated);
        state.transactions.insert(t.tx_id, entry);
        state.applied = n + 1;
        proof {
            lemma_account_views_insert(m0, t.client_id, updated);
            lemma_bounded_insert(m0, n as nat, t.client_id, updated);
            lemma_chargeback_keeps_wf(s0, t);
            assert(state@ == chargeback_outcome(s0, t).1);
        }
        Ok(())
    }
}

impl State {
    /// Applies one record to the ledger, by its kind. A rejected record leaves the ledger
    /// unchanged.
    pub fn process(&mut self, tx: Transaction) -> (r: Result<(), TransactionError>)
        requires
            old(self).wf(),
            old(self).has_room(),
        ensures
            (r, final(self)@) == process_outcome(old(self)@, tx),
            r is Err ==> final(self)@ == old(self)@,
            final(self).wf(),
    {
        match tx.tx_type {
            TxType::Deposit => Deposit::new(tx).handle(self),
            TxType::Withdrawal => Withdrawal::new(tx).handle(self),
            TxType::Dispute => Dispute::new(tx).handle(self),
            TxType::Resolve => Resolve::new(tx).handle(self),
            TxType::Chargeback => Chargeback::new(tx).handle(self),
        }
    }
}

} // verus!
