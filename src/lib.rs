//! A ledger engine for client accounts. Records (deposits, withdrawals, disputes, resolves
//! and chargebacks) are applied one at a time to a table of accounts and a table of
//! deposits and withdrawals. Each kind checks everything before it changes anything, so a
//! rejected record leaves the ledger as it was. Amounts are exact fixed-point decimals with
//! four fractional places.
//!
//! - `model`: the data types and their mathematical views.
//! - `ledger`: what each kind of record does, as spec functions, and the shared checks.
//! - `handler`: the executable handlers, proved to do exactly that.
//! - `laws`: properties of the ledger over any records.
//! - `record`: reading a record's fields from text.
//! - `report`: writing an account's balances as text.
use vstd::prelude::*;

pub mod error;
pub mod handler;
pub mod laws;
pub mod ledger;
pub mod model;
pub mod record;
pub mod report;

verus! {

} // verus!
