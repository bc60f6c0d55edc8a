use std::collections::HashMap;

use vstd::prelude::*;

verus! {

/// Identifier of a client account.
pub type ClientId = u16;

/// Identifier of a transaction, unique over all clients.
pub type TxId = u32;

/// An amount of money carried by a record, in ten-thousandths of the currency unit
/// (four fractional decimal digits, held exactly).
pub type Amount = i64;

/// A balance of an account, in ten-thousandths of the currency unit.
pub type Balance = i128;

/// The number of ten-thousandths in one currency unit.
pub const UNIT: i64 = 10000;

/// The kind of a transaction record.
#[derive(Copy, Clone, Debug, PartialEq, Eq, Structural)]
pub enum TxType {
    Deposit,
    Withdrawal,
    Dispute,
    Resolve,
    Chargeback,
}

/// Lifecycle status of a recorded deposit or withdrawal.
#[derive(Copy, Clone, Debug, PartialEq, Eq, Structural)]
pub enum TxStatus {
    Valid,
    Disputed,
    Chargeback,
}

impl Default for TxStatus {
    fn default() -> (r: TxStatus)
        ensures
            r == TxStatus::Valid,
    {
        TxStatus::Valid
    }
}

/// One input record: its kind, the client, the transaction id and, for deposits and
/// withdrawals, an amount.
#[derive(Copy, Clone, Debug, PartialEq, Eq, Structural)]
pub struct Transaction {
    pub tx_type: TxType,
    pub client_id: ClientId,
    pub tx_id: TxId,
    pub amount: Option<Amount>,
}

/// The balances of one client.
#[derive(Copy, Clone, Debug, PartialEq, Eq, Structural)]
pub struct ClientAccount {
    pub client_id: ClientId,
    pub available: Balance,
    pub held: Balance,
    pub total: Balance,
    pub locked: bool,
}

/// A client account as mathematical integers.
pub struct AccountModel {
    pub client_id: ClientId,
    pub available: int,
    pub held: int,
    pub total: int,
    pub locked: bool,
}

impl AccountModel {
    /// The account that a first deposit opens: zero balances, unlocked.
    pub open spec fn fresh(c: ClientId) -> AccountModel {
        AccountModel { client_id: c, available: 0, held: 0, total: 0, locked: false }
    }

    /// `total` is the sum of `available` and `held`.
    pub open spec fn balanced(self) -> bool {
        self.total == self.available + self.held
    }
}

impl View for ClientAccount {
    type V = AccountModel;

    open spec fn view(&self) -> AccountModel {
        AccountModel {
            client_id: self.client_id,
            available: self.available as int,
            held: self.held as int,
            total: self.total as int,
            locked: self.locked,
        }
    }
}

impl ClientAccount {
    /// A new account for client `c`, with zero balances and unlocked.
    pub fn new(c: ClientId) -> (r: ClientAccount)
        ensures
            r@ == AccountModel::fresh(c),
    {
        ClientAccount { client_id: c, available: 0, held: 0, total: 0, locked: false }
    }
}

/// A deposit or withdrawal as kept in the transaction table.
#[derive(Copy, Clone, Debug, PartialEq, Eq, Structural)]
pub struct LedgerTransaction {
    pub tx_type: TxType,
    pub client_id: ClientId,
    pub tx_id: TxId,
    pub amount: Option<Amount>,
    pub status: TxStatus,
}

impl LedgerTransaction {
    /// The entry that an accepted deposit or withdrawal `t` leaves in the table.
    pub open spec fn recorded(t: Transaction) -> LedgerTransaction {
        LedgerTransaction {
            tx_type: t.tx_type,
            client_id: t.client_id,
            tx_id: t.tx_id,
            amount: t.amount,
            status: TxStatus::Valid,
        }
    }

    /// `self` with its status replaced by `st`; every other field is kept.
    pub open spec fn with_status(self, st: TxStatus) -> LedgerTransaction {
        LedgerTransaction { status: st, ..self }
    }

    pub fn client_id(&self) -> (r: ClientId)
        ensures
            r == self.client_id,
    {
        self.client_id
    }

    pub fn tx_id(&self) -> (r: TxId)
        ensures
            r == self.tx_id,
    {
        self.tx_id
    }

    pub fn tx_type(&self) -> (r: TxType)
        ensures
            r == self.tx_type,
    {
        self.tx_type
    }

    pub fn amount(&self) -> (r: Option<Amount>)
        ensures
            r == self.amount,
    {
        self.amount
    }

    pub fn status(&self) -> (r: TxStatus)
        ensures
            r == self.status,
    {
        self.status
    }

    pub fn set_status(&mut self, st: TxStatus)
        ensures
            *final(self) == old(self).with_status(st),
    {
        self.status = st;
    }
}

/// The ledger as a mathematical value: the account table, the transaction table and the
/// number of transactions applied so far.
pub struct LedgerModel {
    pub accounts: Map<ClientId, AccountModel>,
    pub transactions: Map<TxId, LedgerTransaction>,
    pub applied: nat,
}

impl LedgerModel {
    /// The ledger at the start of a run: no accounts, no transactions.
    pub open spec fn empty() -> LedgerModel {
        LedgerModel { accounts: Map::empty(), transactions: Map::empty(), applied: 0 }
    }

    /// Every account satisfies `total == available + held`.
    pub open spec fn balanced(self) -> bool {
        forall|c: ClientId| #[trigger] self.accounts.contains_key(c) ==> self.accounts[c].balanced()
    }

    /// The tables are consistent: each account is filed under its client, each entry under
    /// its own id, and each entry holds a non-negative amount.
    pub open spec fn consistent(self) -> bool {
        &&& forall|c: ClientId| #[trigger]
            self.accounts.contains_key(c) ==> self.accounts[c].client_id == c
        &&& forall|id: TxId| #[trigger]
            self.transactions.contains_key(id) ==> {
                let e = self.transactions[id];
                &&& e.tx_id == id
                &&& e.amount is Some
                &&& e.amount.unwrap() >= 0
            }
    }

    /// The invariant of a ledger reachable from the empty one.
    pub open spec fn wf(self) -> bool {
        self.balanced() && self.consistent()
    }

    /// The account of client `c`, or the one that a first deposit would open.
    pub open spec fn account_or_fresh(self, c: ClientId) -> AccountModel {
        if self.accounts.contains_key(c) {
            self.accounts[c]
        } else {
            AccountModel::fresh(c)
        }
    }
}

/// The state of the ledger engine: accounts by client and deposits and withdrawals by id.
pub struct State {
    pub accounts: HashMap<ClientId, ClientAccount>,
    pub transactions: HashMap<TxId, LedgerTransaction>,
    pub applied: u64,
}

/// Largest amount that one applied transaction moves: any non-negative `Amount` is below it.
pub open spec fn step_limit() -> int {
    0x8000_0000_0000_0000
}

/// `x` lies within what `n` applied transactions can have moved.
pub open spec fn within(x: int, n: nat) -> bool {
    -(n * step_limit()) <= x <= n * step_limit()
}

/// Every balance of `a` lies within what `n` applied transactions can have moved.
pub open spec fn account_within(a: AccountModel, n: nat) -> bool {
    within(a.available, n) && within(a.held, n) && within(a.total, n)
}

/// Every account of the table `m` lies within what `n` applied transactions can have moved.
pub open spec fn bounded_by(m: Map<ClientId, ClientAccount>, n: nat) -> bool {
    forall|c: ClientId| #[trigger] m.contains_key(c) ==> account_within(m[c]@, n)
}

/// The views of the accounts of a table.
pub open spec fn account_views(m: Map<ClientId, ClientAccount>) -> Map<ClientId, AccountModel> {
    m.map_values(|a: ClientAccount| a@)
}

impl View for State {
    type V = LedgerModel;

    open spec fn view(&self) -> LedgerModel {
        LedgerModel {
            accounts: account_views(self.accounts@),
            transactions: self.transactions@,
            applied: self.applied as nat,
        }
    }
}

impl State {
    /// The ledger invariant, and balances bounded by the number of applied transactions,
    /// which keeps every update of a balance within `Balance`.
    pub open spec fn wf(&self) -> bool {
        &&& self@.wf()
        &&& bounded_by(self.accounts@, self.applied as nat)
    }

    /// There is room to count one more applied transaction.
    pub open spec fn has_room(&self) -> bool {
        self.applied < u64::MAX
    }

    /// An empty ledger.
    pub fn new() -> (r: State)
        ensures
            r@ == LedgerModel::empty(),
            r.wf(),
    {
        let r = State { accounts: HashMap::new(), transactions: HashMap::new(), applied: 0 };
        assert(r@.accounts =~= Map::empty());
        r
    }

    /// The number of transactions applied so far.
    pub fn applied(&self) -> (r: u64)
        ensures
            r == self.applied,
    {
        self.applied
    }
}

impl Default for State {
    fn default() -> (r: State)
        ensures
            r@ == LedgerModel::empty(),
            r.wf(),
    {
        State::new()
    }
}

/// A table within the bounds of `n` transactions, updated at one account that is within
/// the bounds of `n + 1`, is within the bounds of `n + 1`.
pub proof fn lemma_bounded_insert(m: Map<ClientId, ClientAccount>, n: nat, c: ClientId, a: ClientAccount)
    requires
        bounded_by(m, n),
        account_within(a@, n + 1),
    ensures
        bounded_by(m.insert(c, a), n + 1),
{
    assert forall|k: ClientId| #[trigger] m.insert(c, a).contains_key(k) implies account_within(
        m.insert(c, a)[k]@,
        n + 1,
    ) by {
        if k != c {
            assert(account_within(m[k]@, n));
        }
    }
}

/// Updating one account of a table updates its view at the same key.
pub proof fn lemma_account_views_insert(m: Map<ClientId, ClientAccount>, c: ClientId, a: ClientAccount)
    ensures
        account_views(m.insert(c, a)) == account_views(m).insert(c, a@),
{
    assert(account_views(m.insert(c, a)) =~= account_views(m).insert(c, a@));
}

} // verus!
