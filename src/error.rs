use vstd::prelude::*;

use crate::model::{Amount, Balance, ClientId, TxId, TxStatus, TxType};

verus! {

/// Why a transaction was rejected. A rejected transaction leaves the ledger unchanged.
#[derive(Copy, Clone, Debug, PartialEq, Eq, Structural)]
pub enum TransactionError {
    /// The amount is negative.
    MustBePositive { tx_type: TxType, id: TxId, amount: Amount },
    /// The balance checked falls short of the amount.
    BalanceInsufficient { available: Balance, tx_type: TxType, id: TxId, amount: Amount },
    /// The client's account is locked.
    AccountLocked { id: ClientId },
    /// No deposit with this id is on record.
    NotFound { tx_type: TxType, id: TxId },
    /// The client has no account.
    AccountNotFound { id: ClientId },
    /// The record names another client than the deposit it refers to.
    ClientIdMismatch { expected: ClientId, actual: ClientId },
    /// The id is already taken by a deposit or withdrawal.
    DuplicateTransaction { id: TxId },
    /// The record, or the deposit it refers to, carries no amount.
    MissingAmount { tx_type: TxType, id: TxId },
    /// The deposit referred to is not in the status the transaction needs.
    IncorrectState { tx_type: TxType, state: TxStatus, id: TxId },
}

} // verus!
