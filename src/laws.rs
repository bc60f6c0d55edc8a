use vstd::prelude::*;

use crate::error::TransactionError;
use crate::ledger::{
    lemma_chargeback_keeps_wf, lemma_deposit_keeps_wf, lemma_dispute_keeps_wf,
    lemma_resolve_keeps_wf, lemma_withdrawal_keeps_wf, process_outcome,
};
use crate::model::{ClientId, LedgerModel, Transaction, TxId, TxType};

verus! {

/// The ledger after the records `ts`, in order, are applied to `s`.
pub open spec fn process_all(s: LedgerModel, ts: Seq<Transaction>) -> LedgerModel
    decreases ts.len(),
{
    if ts.len() == 0 {
        s
    } else {
        process_outcome(process_all(s, ts.drop_last()), ts.last()).1
    }
}

/// Every record of `ts` is accepted when applied, in order, from `s`.
pub open spec fn all_accepted(s: LedgerModel, ts: Seq<Transaction>) -> bool {
    forall|i: int|
        0 <= i < ts.len() ==> (#[trigger] process_outcome(process_all(s, ts.take(i)), ts[i])).0 is Ok
}

/// The total of client `c`, zero where `c` has no account.
pub open spec fn account_total(s: LedgerModel, c: ClientId) -> int {
    if s.accounts.contains_key(c) {
        s.accounts[c].total
    } else {
        0
    }
}

/// What the deposits of client `c` in `ts` add up to, less what its withdrawals add up to.
pub open spec fn net_flow(ts: Seq<Transaction>, c: ClientId) -> int
    decreases ts.len(),
{
    if ts.len() == 0 {
        0
    } else {
        let t = ts.last();
        let a = t.amount.unwrap() as int;
        let here = if t.client_id != c {
            0
        } else if t.tx_type == TxType::Deposit {
            a
        } else if t.tx_type == TxType::Withdrawal {
            -a
        } else {
            0
        };
        net_flow(ts.drop_last(), c) + here
    }
}

/// Applying any record keeps the ledger invariant: each account keeps
/// `total == available + held`, and the tables stay consistent.
pub proof fn lemma_process_keeps_wf(s: LedgerModel, t: Transaction)
    requires
        s.wf(),
    ensures
        process_outcome(s, t).1.wf(),
{
    match t.tx_type {
        TxType::Deposit => lemma_deposit_keeps_wf(s, t),
        TxType::Withdrawal => lemma_withdrawal_keeps_wf(s, t),
        TxType::Dispute => lemma_dispute_keeps_wf(s, t),
        TxType::Resolve => lemma_resolve_keeps_wf(s, t),
        TxType::Chargeback => lemma_chargeback_keeps_wf(s, t),
    }
}

/// At all times, every account has `total == available + held`: whatever records are
/// applied from the empty ledger, each account of the result is balanced.
pub proof fn law_total_is_available_plus_held(ts: Seq<Transaction>)
    ensures
        process_all(LedgerModel::empty(), ts).balanced(),
        process_all(LedgerModel::empty(), ts).wf(),
    decreases ts.len(),
{
    if ts.len() > 0 {
        law_total_is_available_plus_held(ts.drop_last());
        lemma_process_keeps_wf(process_all(LedgerModel::empty(), ts.drop_last()), ts.last());
    }
}

/// A transaction id, once taken by a deposit or withdrawal, is never taken again: another
/// deposit or withdrawal with that id is rejected as a duplicate and changes nothing.
pub proof fn law_tx_id_is_never_reassigned(s: LedgerModel, t: Transaction)
    requires
        s.transactions.contains_key(t.tx_id),
        t.tx_type == TxType::Deposit || t.tx_type == TxType::Withdrawal,
    ensures
        process_outcome(s, t) == (
            Err::<(), TransactionError>(TransactionError::DuplicateTransaction { id: t.tx_id }),
            s,
        ),
{
}

/// An entry of the transaction table stays in it, and no record changes anything of it but
/// its status.
pub proof fn law_entries_are_permanent(s: LedgerModel, t: Transaction, id: TxId)
    requires
        s.transactions.contains_key(id),
    ensures
        process_outcome(s, t).1.transactions.contains_key(id),
        process_outcome(s, t).1.transactions[id] == s.transactions[id].with_status(
            process_outcome(s, t).1.transactions[id].status,
        ),
{
}

/// A rejected record changes nothing: every account and every entry stays as it was.
pub proof fn law_rejection_changes_nothing(s: LedgerModel, t: Transaction)
    ensures
        process_outcome(s, t).0 is Err ==> process_outcome(s, t).1 == s,
{
}

/// A withdrawal can never be disputed: a dispute of it is rejected as not found and
/// changes nothing.
pub proof fn law_withdrawal_cannot_be_disputed(s: LedgerModel, t: Transaction)
    requires
        t.tx_type == TxType::Dispute,
        s.transactions.contains_key(t.tx_id),
        s.transactions[t.tx_id].tx_type == TxType::Withdrawal,
    ensures
        process_outcome(s, t) == (
            Err::<(), TransactionError>(
                TransactionError::NotFound { tx_type: TxType::Dispute, id: t.tx_id },
            ),
            s,
        ),
{
}

/// A locked account rejects every record of its client, of any kind, and so stays locked.
pub proof fn law_locked_account_rejects_all(s: LedgerModel, t: Transaction)
    requires
        s.accounts.contains_key(t.client_id),
        s.accounts[t.client_id].locked,
    ensures
        process_outcome(s, t).0 is Err,
        process_outcome(s, t).1 == s,
{
}

/// Deposits and withdrawals that are all accepted, with no disputes among them, change the
/// total of each client by the sum of its deposits less the sum of its withdrawals.
pub proof fn law_total_is_net_of_deposits_and_withdrawals(s: LedgerModel, ts: Seq<Transaction>)
    requires
        forall|i: int|
            0 <= i < ts.len() ==> (#[trigger] ts[i]).tx_type == TxType::Deposit || ts[i].tx_type
                == TxType::Withdrawal,
        all_accepted(s, ts),
    ensures
        forall|c: ClientId|
            #[trigger] account_total(process_all(s, ts), c) == account_total(s, c) + net_flow(
                ts,
                c,
            ),
    decreases ts.len(),
{
    if ts.len() > 0 {
        let init = ts.drop_last();
        assert forall|i: int| 0 <= i < init.len() implies (#[trigger] process_outcome(
            process_all(s, init.take(i)),
            init[i],
        )).0 is Ok by {
            assert(init.take(i) =~= ts.take(i));
            assert(process_outcome(process_all(s, ts.take(i)), ts[i]).0 is Ok);
        }
        assert forall|i: int| 0 <= i < init.len() implies (#[trigger] init[i]).tx_type
            == TxType::Deposit || init[i].tx_type == TxType::Withdrawal by {
            assert(ts[i] == init[i]);
        }
        law_total_is_net_of_deposits_and_withdrawals(s, init);
        let last = ts.len() - 1;
        assert(ts.take(last) =~= init);
        assert(process_outcome(process_all(s, ts.take(last)), ts[last]).0 is Ok);
        assert forall|c: ClientId| #[trigger]
            account_total(process_all(s, ts), c) == account_total(s, c) + net_flow(ts, c) by {
            assert(account_total(process_all(s, init), c) == account_total(s, c) + net_flow(
                init,
                c,
            ));
        }
    }
}

/// From the empty ledger, accepted deposits and withdrawals leave each client a total equal
/// to the sum of its deposits less the sum of its withdrawals.
pub proof fn law_total_from_empty_is_net(ts: Seq<Transaction>, c: ClientId)
    requires
        forall|i: int|
            0 <= i < ts.len() ==> (#[trigger] ts[i]).tx_type == TxType::Deposit || ts[i].tx_type
                == TxType::Withdrawal,
        all_accepted(LedgerModel::empty(), ts),
    ensures
        account_total(process_all(LedgerModel::empty(), ts), c) == net_flow(ts, c),
{
    law_total_is_net_of_deposits_and_withdrawals(LedgerModel::empty(), ts);
    assert(account_total(process_all(LedgerModel::empty(), ts), c) == account_total(
        LedgerModel::empty(),
        c,
    ) + net_flow(ts, c));
}

/// A record touches no account but its own client's: every other account stays as it was.
pub proof fn law_other_accounts_unchanged(s: LedgerModel, t: Transaction, c: ClientId)
    requires
        c != t.client_id,
    ensures
        process_outcome(s, t).1.accounts.contains_key(c) == s.accounts.contains_key(c),
        s.accounts.contains_key(c) ==> process_outcome(s, t).1.accounts[c] == s.accounts[c],
{
}

/// Once an account is locked it is frozen: whatever records follow, it stays exactly as it
/// was, locked.
pub proof fn law_locked_account_is_frozen(s: LedgerModel, ts: Seq<Transaction>, c: ClientId)
    requires
        s.accounts.contains_key(c),
        s.accounts[c].locked,
    ensures
        process_all(s, ts).accounts.contains_key(c),
        process_all(s, ts).accounts[c] == s.accounts[c],
    decreases ts.len(),
{
    if ts.len() > 0 {
        law_locked_account_is_frozen(s, ts.drop_last(), c);
        let before = process_all(s, ts.drop_last());
        if ts.last().client_id == c {
            law_locked_account_rejects_all(before, ts.last());
        } else {
            law_other_accounts_unchanged(before, ts.last(), c);
        }
    }
}

/// Whatever records follow, an id once taken keeps its entry: the same kind, client, id and
/// amount, with only its status free to change.
pub proof fn law_entry_kept_through_any_records(s: LedgerModel, ts: Seq<Transaction>, id: TxId)
    requires
        s.transactions.contains_key(id),
    ensures
        process_all(s, ts).transactions.contains_key(id),
        process_all(s, ts).transactions[id] == s.transactions[id].with_status(
            process_all(s, ts).transactions[id].status,
        ),
    decreases ts.len(),
{
    if ts.len() > 0 {
        law_entry_kept_through_any_records(s, ts.drop_last(), id);
        law_entries_are_permanent(process_all(s, ts.drop_last()), ts.last(), id);
    }
}

} // verus!
