//! The ledger engine: the mathematical transition relation on ledger state,
//! and the executable engine proved to follow it exactly.

use vstd::prelude::*;
use std::collections::HashMap;

use crate::types::{
    Account, AccountOutput, ClientId, DepositRecord, DepositStatus, TransactionRecord, TxId,
    TxType, fits_amount,
};

verus! {

broadcast use vstd::std_specs::hash::group_hash_axioms;

/// The mathematical state of the ledger: the account map, the stored
/// deposits, and the client IDs in order of first account creation.
#[verifier::ext_equal]
pub struct LedgerView {
    pub accounts: Map<ClientId, Account>,
    pub deposits: Map<TxId, DepositRecord>,
    pub clients: Seq<ClientId>,
}

impl LedgerView {
    /// The state before any record has been applied.
    pub open spec fn init() -> LedgerView {
        LedgerView {
            accounts: Map::empty(),
            deposits: Map::empty(),
            clients: Seq::empty(),
        }
    }

    /// Well-formedness: every account's total is representable, and the
    /// client list holds exactly the account keys, each once.
    pub open spec fn wf(self) -> bool {
        &&& forall|c: ClientId|
            self.accounts.dom().contains(c) ==> fits_amount(
                (#[trigger] self.accounts[c]).spec_total(),
            )
        &&& self.clients.no_duplicates()
        &&& forall|c: ClientId|
            #![trigger self.accounts.dom().contains(c)]
            #![trigger self.clients.contains(c)]
            self.accounts.dom().contains(c) <==> self.clients.contains(c)
    }
}

/// A locked account drops every record addressed to its client.
pub open spec fn locked_guard(v: LedgerView, c: ClientId) -> bool {
    v.accounts.dom().contains(c) && v.accounts[c].locked
}

/// The client's account, or a fresh one if the client is unseen.
pub open spec fn account_or_new(v: LedgerView, c: ClientId) -> Account {
    if v.accounts.dom().contains(c) {
        v.accounts[c]
    } else {
        Account { available: 0, held: 0, locked: false }
    }
}

/// The account map and client list after storing `acc` for client `c`,
/// creating the account if the client is unseen.
pub open spec fn store_account(v: LedgerView, c: ClientId, acc: Account) -> LedgerView {
    LedgerView {
        accounts: v.accounts.insert(c, acc),
        clients: if v.accounts.dom().contains(c) {
            v.clients
        } else {
            v.clients.push(c)
        },
        ..v
    }
}

/// A deposit succeeds when it carries an amount, its transaction ID is
/// unused, and the credited balances stay representable.
pub open spec fn deposit_ok(v: LedgerView, r: TransactionRecord) -> bool {
    let acc = account_or_new(v, r.client_id);
    &&& r.amount is Some
    &&& !v.deposits.dom().contains(r.tx_id)
    &&& fits_amount(acc.available + r.amount.unwrap())
    &&& fits_amount(acc.spec_total() + r.amount.unwrap())
}

/// Deposit: credit `available` and store a Normal-status deposit record.
pub open spec fn apply_deposit(v: LedgerView, r: TransactionRecord) -> LedgerView {
    if deposit_ok(v, r) {
        let a = r.amount.unwrap();
        let acc = account_or_new(v, r.client_id);
        let stored = store_account(
            v,
            r.client_id,
            Account { available: (acc.available + a) as i64, ..acc },
        );
        LedgerView {
            deposits: v.deposits.insert(
                r.tx_id,
                DepositRecord { client_id: r.client_id, amount: a, status: DepositStatus::Normal },
            ),
            ..stored
        }
    } else {
        v
    }
}

/// A withdrawal debits the balance when the funds suffice and the debited
/// balances stay representable.
pub open spec fn withdraw_ok(acc: Account, a: int) -> bool {
    &&& acc.available >= a
    &&& fits_amount(acc.available - a)
    &&& fits_amount(acc.spec_total() - a)
}

/// Withdrawal: touch (create) the account, and debit `available` only if the
/// funds suffice; an insufficient withdrawal changes no balance.
pub open spec fn apply_withdrawal(v: LedgerView, r: TransactionRecord) -> LedgerView {
    if r.amount is Some {
        let a = r.amount.unwrap();
        let acc = account_or_new(v, r.client_id);
        let acc2 = if withdraw_ok(acc, a as int) {
            Account { available: (acc.available - a) as i64, ..acc }
        } else {
            acc
        };
        store_account(v, r.client_id, acc2)
    } else {
        v
    }
}

/// A dispute succeeds when the referenced deposit exists, is owned by the
/// record's client, is in Normal status, the client has an account, and the
/// moved balances stay representable.
pub open spec fn dispute_ok(v: LedgerView, r: TransactionRecord) -> bool {
    &&& v.deposits.dom().contains(r.tx_id)
    &&& v.deposits[r.tx_id].client_id == r.client_id
    &&& v.deposits[r.tx_id].status == DepositStatus::Normal
    &&& v.accounts.dom().contains(r.client_id)
    &&& fits_amount(v.accounts[r.client_id].available - v.deposits[r.tx_id].amount)
    &&& fits_amount(v.accounts[r.client_id].held + v.deposits[r.tx_id].amount)
}

/// Dispute: move the deposit's amount from `available` to `held` (so
/// `available` may go negative) and mark the deposit Disputed.
pub open spec fn apply_dispute(v: LedgerView, r: TransactionRecord) -> LedgerView {
    if dispute_ok(v, r) {
        let d = v.deposits[r.tx_id];
        let acc = v.accounts[r.client_id];
        LedgerView {
            accounts: v.accounts.insert(
                r.client_id,
                Account {
                    available: (acc.available - d.amount) as i64,
                    held: (acc.held + d.amount) as i64,
                    ..acc
                },
            ),
            deposits: v.deposits.insert(
                r.tx_id,
                DepositRecord { status: DepositStatus::Disputed, ..d },
            ),
            ..v
        }
    } else {
        v
    }
}

/// A resolve succeeds under the mirror conditions of a dispute, with the
/// deposit's status required to be Disputed.
pub open spec fn resolve_ok(v: LedgerView, r: TransactionRecord) -> bool {
    &&& v.deposits.dom().contains(r.tx_id)
    &&& v.deposits[r.tx_id].client_id == r.client_id
    &&& v.deposits[r.tx_id].status == DepositStatus::Disputed
    &&& v.accounts.dom().contains(r.client_id)
    &&& fits_amount(v.accounts[r.client_id].held - v.deposits[r.tx_id].amount)
    &&& fits_amount(v.accounts[r.client_id].available + v.deposits[r.tx_id].amount)
}

/// Resolve: move the deposit's amount from `held` back to `available` and
/// mark the deposit Normal again.
pub open spec fn apply_resolve(v: LedgerView, r: TransactionRecord) -> LedgerView {
    if resolve_ok(v, r) {
        let d = v.deposits[r.tx_id];
        let acc = v.accounts[r.client_id];
        LedgerView {
            accounts: v.accounts.insert(
                r.client_id,
                Account {
                    available: (acc.available + d.amount) as i64,
                    held: (acc.held - d.amount) as i64,
                    ..acc
                },
            ),
            deposits: v.deposits.insert(
                r.tx_id,
                DepositRecord { status: DepositStatus::Normal, ..d },
            ),
            ..v
        }
    } else {
        v
    }
}

/// A chargeback succeeds under the same conditions as a resolve, with the
/// post-chargeback total also required to stay representable.
pub open spec fn chargeback_ok(v: LedgerView, r: TransactionRecord) -> bool {
    &&& v.deposits.dom().contains(r.tx_id)
    &&& v.deposits[r.tx_id].client_id == r.client_id
    &&& v.deposits[r.tx_id].status == DepositStatus::Disputed
    &&& v.accounts.dom().contains(r.client_id)
    &&& fits_amount(v.accounts[r.client_id].held - v.deposits[r.tx_id].amount)
    &&& fits_amount(v.accounts[r.client_id].spec_total() - v.deposits[r.tx_id].amount)
}

/// Chargeback: remove the deposit's amount from `held` (the funds vanish,
/// they do not return to `available`), lock the account, and mark the
/// deposit ChargedBack.
pub open spec fn apply_chargeback(v: LedgerView, r: TransactionRecord) -> LedgerView {
    if chargeback_ok(v, r) {
        let d = v.deposits[r.tx_id];
        let acc = v.accounts[r.client_id];
        LedgerView {
            accounts: v.accounts.insert(
                r.client_id,
                Account { held: (acc.held - d.amount) as i64, locked: true, ..acc },
            ),
            deposits: v.deposits.insert(
                r.tx_id,
                DepositRecord { status: DepositStatus::ChargedBack, ..d },
            ),
            ..v
        }
    } else {
        v
    }
}

/// The full transition for one record: the locked-account guard, then the
/// kind-specific rule. Every rejection leaves the state unchanged.
pub open spec fn apply(v: LedgerView, r: TransactionRecord) -> LedgerView {
    if locked_guard(v, r.client_id) {
        v
    } else {
        match r.tx_type {
            TxType::Deposit => apply_deposit(v, r),
            TxType::Withdrawal => apply_withdrawal(v, r),
            TxType::Dispute => apply_dispute(v, r),
            TxType::Resolve => apply_resolve(v, r),
            TxType::Chargeback => apply_chargeback(v, r),
        }
    }
}

/// Applying a whole stream of records in order.
pub open spec fn run(v: LedgerView, rs: Seq<TransactionRecord>) -> LedgerView
    decreases rs.len(),
{
    if rs.len() == 0 {
        v
    } else {
        run(apply(v, rs[0]), rs.drop_first())
    }
}

/// The snapshot row for one client.
pub open spec fn snapshot_row(v: LedgerView, c: ClientId) -> AccountOutput {
    let acc = v.accounts[c];
    AccountOutput {
        client: c,
        available: acc.available,
        held: acc.held,
        total: acc.spec_total() as i64,
        locked: acc.locked,
    }
}

/// The payments engine. Holds all client accounts and stored deposits, plus
/// the client IDs in order of first account creation.
pub struct Engine {
    pub accounts: HashMap<ClientId, Account>,
    pub deposits: HashMap<TxId, DepositRecord>,
    pub clients: Vec<ClientId>,
}

impl View for Engine {
    type V = LedgerView;

    open spec fn view(&self) -> LedgerView {
        LedgerView { accounts: self.accounts@, deposits: self.deposits@, clients: self.clients@ }
    }
}

impl Engine {
    /// A fresh engine with no accounts and no stored deposits.
    pub fn new() -> (e: Engine)
        ensures
            e@ == LedgerView::init(),
            e@.wf(),
    {
        let e = Engine { accounts: HashMap::new(), deposits: HashMap::new(), clients: Vec::new() };
        proof {
            assert(e@ =~= LedgerView::init());
        }
        e
    }

    /// Process a single transaction record, updating internal state exactly
    /// as the `apply` transition prescribes.
    pub fn process(&mut self, record: TransactionRecord)
        requires
            old(self)@.wf(),
        ensures
            final(self)@ == apply(old(self)@, record),
            final(self)@.wf(),
    {
        proof {
            lemma_apply_preserves_wf(old(self)@, record);
        }
        if let Some(account) = self.accounts.get(&record.client_id) {
            if account.locked {
                return;
            }
        }
        match record.tx_type {
            TxType::Deposit => self.deposit(record),
            TxType::Withdrawal => self.withdrawal(record),
            TxType::Dispute => self.dispute(record),
            TxType::Resolve => self.resolve(record),
            TxType::Chargeback => self.chargeback(record),
        }
    }

    /// The client's account if one exists, else a fresh one; paired with
    /// whether it existed.
    fn lookup_account(&self, client_id: ClientId) -> (r: (Account, bool))
        ensures
            r.0 == account_or_new(self@, client_id),
            r.1 == self@.accounts.dom().contains(client_id),
    {
        match self.accounts.get(&client_id) {
            Some(a) => (*a, true),
            None => (Account { available: 0, held: 0, locked: false }, false),
        }
    }

    /// Store `acc` for the client, adding the client to the creation-order
    /// list if it is new.
    fn store_account(&mut self, client_id: ClientId, existed: bool, acc: Account)
        requires
            existed == old(self)@.accounts.dom().contains(client_id),
        ensures
            final(self)@ == store_account(old(self)@, client_id, acc),
    {
        self.accounts.insert(client_id, acc);
        if !existed {
            self.clients.push(client_id);
        }
        proof {
            assert(self@ =~= store_account(old(self)@, client_id, acc));
        }
    }

    fn deposit(&mut self, record: TransactionRecord)
        ensures
            final(self)@ == apply_deposit(old(self)@, record),
    {
        let amount = match record.amount {
            Some(a) => a,
            None => {
                return;
            },
        };
        if self.deposits.contains_key(&record.tx_id) {
            return;
        }
        let (acc, existed) = self.lookup_account(record.client_id);
        let avail: i128 = acc.available as i128 + amount as i128;
        let total: i128 = acc.available as i128 + acc.held as i128 + amount as i128;
        if !(fits_i64(avail) && fits_i64(total)) {
            return;
        }
        self.store_account(
            record.client_id,
            existed,
            Account { available: avail as i64, held: acc.held, locked: acc.locked },
        );
        self.deposits.insert(
            record.tx_id,
            DepositRecord { client_id: record.client_id, amount, status: DepositStatus::Normal },
        );
        proof {
            assert(self@ =~= apply_deposit(old(self)@, record));
        }
    }

    fn withdrawal(&mut self, record: TransactionRecord)
        ensures
            final(self)@ == apply_withdrawal(old(self)@, record),
    {
        let amount = match record.amount {
            Some(a) => a,
            None => {
                return;
            },
        };
        let (acc, existed) = self.lookup_account(record.client_id);
        let avail: i128 = acc.available as i128 - amount as i128;
        let total: i128 = acc.available as i128 + acc.held as i128 - amount as i128;
        let acc2 = if acc.available >= amount && fits_i64(avail) && fits_i64(total) {
            Account { available: avail as i64, held: acc.held, locked: acc.locked }
        } else {
            acc
        };
        self.store_account(record.client_id, existed, acc2);
        proof {
            assert(self@ =~= apply_withdrawal(old(self)@, record));
        }
    }

    fn dispute(&mut self, record: TransactionRecord)
        ensures
            final(self)@ == apply_dispute(old(self)@, record),
    {
        let deposit = match self.deposits.get(&record.tx_id) {
            Some(d) => *d,
            None => {
                return;
            },
        };
        if deposit.client_id != record.client_id {
            return;
        }
        if deposit.status != DepositStatus::Normal {
            return;
        }
        let acc = match self.accounts.get(&record.client_id) {
            Some(a) => *a,
            None => {
                return;
            },
        };
        let avail: i128 = acc.available as i128 - deposit.amount as i128;
        let held: i128 = acc.held as i128 + deposit.amount as i128;
        if !(fits_i64(avail) && fits_i64(held)) {
            return;
        }
        self.accounts.insert(
            record.client_id,
            Account { available: avail as i64, held: held as i64, locked: acc.locked },
        );
        self.deposits.insert(
            record.tx_id,
            DepositRecord { status: DepositStatus::Disputed, ..deposit },
        );
        proof {
            assert(self@ =~= apply_dispute(old(self)@, record));
        }
    }

    fn resolve(&mut self, record: TransactionRecord)
        ensures
            final(self)@ == apply_resolve(old(self)@, record),
    {
        let deposit = match self.deposits.get(&record.tx_id) {
            Some(d) => *d,
            None => {
                return;
            },
        };
        if deposit.client_id != record.client_id {
            return;
        }
        if deposit.status != DepositStatus::Disputed {
            return;
        }
        let acc = match self.accounts.get(&record.client_id) {
            Some(a) => *a,
            None => {
                return;
            },
        };
        let held: i128 = acc.held as i128 - deposit.amount as i128;
        let avail: i128 = acc.available as i128 + deposit.amount as i128;
        if !(fits_i64(held) && fits_i64(avail)) {
            return;
        }
        self.accounts.insert(
            record.client_id,
            Account { available: avail as i64, held: held as i64, locked: acc.locked },
        );
        self.deposits.insert(
            record.tx_id,
            DepositRecord { status: DepositStatus::Normal, ..deposit },
        );
        proof {
            assert(self@ =~= apply_resolve(old(self)@, record));
        }
    }

    fn chargeback(&mut self, record: TransactionRecord)
        ensures
            final(self)@ == apply_chargeback(old(self)@, record),
    {
        let deposit = match self.deposits.get(&record.tx_id) {
            Some(d) => *d,
            None => {
                return;
            },
        };
        if deposit.client_id != record.client_id {
            return;
        }
        if deposit.status != DepositStatus::Disputed {
            return;
        }
        let acc = match self.accounts.get(&record.client_id) {
            Some(a) => *a,
            None => {
                return;
            },
        };
        let held: i128 = acc.held as i128 - deposit.amount as i128;
        let total: i128 = acc.available as i128 + acc.held as i128 - deposit.amount as i128;
        if !(fits_i64(held) && fits_i64(total)) {
            return;
        }
        self.accounts.insert(
            record.client_id,
            Account { available: acc.available, held: held as i64, locked: true },
        );
        self.deposits.insert(
            record.tx_id,
            DepositRecord { status: DepositStatus::ChargedBack, ..deposit },
        );
        proof {
            assert(self@ =~= apply_chargeback(old(self)@, record));
        }
    }

    /// Produce the final snapshot row for every known client account, in
    /// order of first account creation.
    pub fn output(&self) -> (out: Vec<AccountOutput>)
        requires
            self@.wf(),
        ensures
            out@.len() == self@.clients.len(),
            forall|i: int|
                0 <= i < out@.len() ==> out@[i] == snapshot_row(self@, #[trigger] self@.clients[i]),
    {
        let mut out: Vec<AccountOutput> = Vec::new();
        let mut i: usize = 0;
        while i < self.clients.len()
            invariant
                self@.wf(),
                i <= self@.clients.len(),
                out@.len() == i,
                forall|j: int|
                    0 <= j < i ==> out@[j] == snapshot_row(self@, #[trigger] self@.clients[j]),
            decreases self@.clients.len() - i,
        {
            let client = self.clients[i];
            proof {
                assert(self@.clients.contains(self@.clients[i as int]));
            }
            let acc = match self.accounts.get(&client) {
                Some(a) => *a,
                None => {
                    proof {
                        assert(false);
                    }
                    Account { available: 0, held: 0, locked: false }
                },
            };
            out.push(
                AccountOutput {
                    client,
                    available: acc.available,
                    held: acc.held,
                    total: acc.total(),
                    locked: acc.locked,
                },
            );
            i += 1;
        }
        out
    }
}

/// Does an intermediate 128-bit value fit the fixed-point representation?
fn fits_i64(v: i128) -> (r: bool)
    ensures
        r == fits_amount(v as int),
{
    i64::MIN as i128 <= v && v <= i64::MAX as i128
}

/// Applying any record to a well-formed state yields a well-formed state.
pub proof fn lemma_apply_preserves_wf(v: LedgerView, r: TransactionRecord)
    requires
        v.wf(),
    ensures
        apply(v, r).wf(),
{
    let v2 = apply(v, r);
    if locked_guard(v, r.client_id) {
    } else {
        match r.tx_type {
            TxType::Deposit | TxType::Withdrawal => {
                if v2 != v {
                    let acc = account_or_new(v, r.client_id);
                    lemma_store_account_wf(v, r.client_id, v2.accounts[r.client_id]);
                }
            },
            TxType::Dispute | TxType::Resolve | TxType::Chargeback => {
                if v2 != v {
                    assert forall|c: ClientId| v2.accounts.dom().contains(c)
                        implies fits_amount((#[trigger] v2.accounts[c]).spec_total()) by {
                        if c != r.client_id {
                            assert(v.accounts.dom().contains(c));
                        }
                    }
                    assert forall|c: ClientId|
                        v2.accounts.dom().contains(c) <==> v2.clients.contains(c) by {
                        assert(v.accounts.dom().contains(c) <==> v.clients.contains(c));
                    }
                }
            },
        }
    }
}

/// Storing an account with a representable total keeps the state well-formed.
proof fn lemma_store_account_wf(v: LedgerView, c: ClientId, acc: Account)
    requires
        v.wf(),
        fits_amount(acc.spec_total()),
    ensures
        store_account(v, c, acc).wf(),
{
    let v2 = store_account(v, c, acc);
    assert forall|c2: ClientId| v2.accounts.dom().contains(c2)
        implies fits_amount((#[trigger] v2.accounts[c2]).spec_total()) by {
        if c2 != c {
            assert(v.accounts.dom().contains(c2));
        }
    }
    if !v.accounts.dom().contains(c) {
        assert(!v.clients.contains(c));
        lemma_push_no_duplicates(v.clients, c);
        assert forall|c2: ClientId|
            v2.accounts.dom().contains(c2) <==> v2.clients.contains(c2) by {
            lemma_push_contains(v.clients, c, c2);
            assert(v.accounts.dom().contains(c2) <==> v.clients.contains(c2));
        }
    } else {
        assert forall|c2: ClientId|
            v2.accounts.dom().contains(c2) <==> v2.clients.contains(c2) by {
            assert(v.accounts.dom().contains(c2) <==> v.clients.contains(c2));
        }
    }
}

/// Pushing an element a sequence lacks keeps the sequence duplicate-free.
proof fn lemma_push_no_duplicates(s: Seq<ClientId>, c: ClientId)
    requires
        s.no_duplicates(),
        !s.contains(c),
    ensures
        s.push(c).no_duplicates(),
{
    let s2 = s.push(c);
    assert forall|i: int, j: int| 0 <= i < s2.len() && 0 <= j < s2.len() && i != j
        implies s2[i] != s2[j] by {
        if i < s.len() && j < s.len() {
        } else if j == s.len() {
            assert(s.contains(s[i]));
        } else {
            assert(s.contains(s[j]));
        }
    }
}

/// What a pushed sequence contains: the old elements and the new one.
proof fn lemma_push_contains(s: Seq<ClientId>, c: ClientId, x: ClientId)
    ensures
        s.push(c).contains(x) <==> (s.contains(x) || x == c),
{
    let s2 = s.push(c);
    if s.contains(x) {
        let i = choose|i: int| 0 <= i < s.len() && s[i] == x;
        assert(s2[i] == x);
    }
    if x == c {
        assert(s2[s.len() as int] == x);
    }
    if s2.contains(x) {
        let i = choose|i: int| 0 <= i < s2.len() && s2[i] == x;
        if i < s.len() {
            assert(s[i] == x);
        }
    }
}

} // verus!
