//! The laws of the ledger: conservation of funds, the dispute round trip,
//! the chargeback rule, the silent no-op rules, and the locked-account
//! freeze, each proved of the `apply` transition for every state and record.

use vstd::prelude::*;

use crate::types::{
    Amount, ClientId, DepositStatus, TransactionRecord, TxId, TxType, fits_amount,
};
use crate::engine::{
    LedgerView, account_or_new, apply, chargeback_ok, deposit_ok, dispute_ok, lemma_apply_preserves_wf,
    locked_guard, resolve_ok, run, withdraw_ok,
};

verus! {

/// A whole run from a well-formed state ends in a well-formed state.
pub proof fn lemma_run_preserves_wf(v: LedgerView, rs: Seq<TransactionRecord>)
    requires
        v.wf(),
    ensures
        run(v, rs).wf(),
    decreases rs.len(),
{
    if rs.len() > 0 {
        lemma_apply_preserves_wf(v, rs[0]);
        lemma_run_preserves_wf(apply(v, rs[0]), rs.drop_first());
    }
}

/// The total funds of client `c`, counting an unseen client as zero.
pub open spec fn client_total(v: LedgerView, c: ClientId) -> int {
    if v.accounts.dom().contains(c) {
        v.accounts[c].spec_total()
    } else {
        0
    }
}

/// The amount record `r` credits to client `c`: the deposit amount when `r`
/// is a deposit for `c` that succeeds in state `v`, else zero.
pub open spec fn credited(v: LedgerView, r: TransactionRecord, c: ClientId) -> int {
    if !locked_guard(v, r.client_id) && r.tx_type == TxType::Deposit && r.client_id == c
        && deposit_ok(v, r) {
        r.amount.unwrap() as int
    } else {
        0
    }
}

/// The amount record `r` withdraws from client `c`: the withdrawal amount
/// when `r` is a withdrawal for `c` that succeeds in state `v`, else zero.
pub open spec fn withdrawn(v: LedgerView, r: TransactionRecord, c: ClientId) -> int {
    if !locked_guard(v, r.client_id) && r.tx_type == TxType::Withdrawal && r.client_id == c
        && r.amount is Some && withdraw_ok(account_or_new(v, c), r.amount.unwrap() as int) {
        r.amount.unwrap() as int
    } else {
        0
    }
}

/// The amount record `r` removes from client `c` by chargeback: the disputed
/// deposit's amount when `r` is a chargeback for `c` that succeeds in state
/// `v`, else zero.
pub open spec fn charged_back(v: LedgerView, r: TransactionRecord, c: ClientId) -> int {
    if !locked_guard(v, r.client_id) && r.tx_type == TxType::Chargeback && r.client_id == c
        && chargeback_ok(v, r) {
        v.deposits[r.tx_id].amount as int
    } else {
        0
    }
}

/// One step of the conservation law: applying a record changes a client's
/// total by exactly what the record credits, minus what it withdraws, minus
/// what it charges back; disputes and resolves move funds between
/// `available` and `held` but never change the total.
pub proof fn lemma_apply_total_delta(v: LedgerView, r: TransactionRecord, c: ClientId)
    requires
        v.wf(),
    ensures
        client_total(apply(v, r), c) == client_total(v, c) + credited(v, r, c) - withdrawn(v, r, c)
            - charged_back(v, r, c),
{
}

/// Sum of the amounts credited to client `c` by the successful deposits of a
/// run that starts in state `v`.
pub open spec fn credited_in_run(v: LedgerView, rs: Seq<TransactionRecord>, c: ClientId) -> int
    decreases rs.len(),
{
    if rs.len() == 0 {
        0
    } else {
        credited(v, rs[0], c) + credited_in_run(apply(v, rs[0]), rs.drop_first(), c)
    }
}

/// Sum of the amounts withdrawn from client `c` by the successful
/// withdrawals of a run that starts in state `v`.
pub open spec fn withdrawn_in_run(v: LedgerView, rs: Seq<TransactionRecord>, c: ClientId) -> int
    decreases rs.len(),
{
    if rs.len() == 0 {
        0
    } else {
        withdrawn(v, rs[0], c) + withdrawn_in_run(apply(v, rs[0]), rs.drop_first(), c)
    }
}

/// Sum of the amounts removed from client `c` by the successful chargebacks
/// of a run that starts in state `v`.
pub open spec fn charged_back_in_run(v: LedgerView, rs: Seq<TransactionRecord>, c: ClientId) -> int
    decreases rs.len(),
{
    if rs.len() == 0 {
        0
    } else {
        charged_back(v, rs[0], c) + charged_back_in_run(apply(v, rs[0]), rs.drop_first(), c)
    }
}

/// Conservation of funds: over any run, a client's total equals its starting
/// total plus the sum of its successful deposit amounts, minus the sum of
/// its successful withdrawal amounts, minus the sum of its charged-back
/// amounts — regardless of intervening dispute/resolve cycles, which net to
/// zero.
pub proof fn lemma_conservation(v: LedgerView, rs: Seq<TransactionRecord>, c: ClientId)
    requires
        v.wf(),
    ensures
        client_total(run(v, rs), c) == client_total(v, c) + credited_in_run(v, rs, c)
            - withdrawn_in_run(v, rs, c) - charged_back_in_run(v, rs, c),
    decreases rs.len(),
{
    if rs.len() > 0 {
        lemma_apply_total_delta(v, rs[0], c);
        lemma_apply_preserves_wf(v, rs[0]);
        lemma_conservation(apply(v, rs[0]), rs.drop_first(), c);
    }
}

/// Round trip: a resolve right after a successful dispute of the same
/// transaction restores the entire ledger state — balances and deposit
/// status — to exactly what it was before the dispute.
pub proof fn lemma_dispute_resolve_round_trip(
    v: LedgerView,
    rd: TransactionRecord,
    rr: TransactionRecord,
)
    requires
        v.wf(),
        rd.tx_type == TxType::Dispute,
        rr.tx_type == TxType::Resolve,
        rr.client_id == rd.client_id,
        rr.tx_id == rd.tx_id,
        !locked_guard(v, rd.client_id),
        dispute_ok(v, rd),
    ensures
        apply(apply(v, rd), rr) == v,
{
    let v1 = apply(v, rd);
    let v2 = apply(v1, rr);
    assert(resolve_ok(v1, rr));
    assert(v2.accounts[rd.client_id] == v.accounts[rd.client_id]);
    assert(v2.accounts =~= v.accounts);
    assert(v2.deposits[rd.tx_id] == v.deposits[rd.tx_id]);
    assert(v2.deposits =~= v.deposits);
    assert(v2 =~= v);
}

/// Chargeback after a successful dispute removes the disputed amount from
/// `held` without returning it to `available`, reduces the total by that
/// amount, locks the account, and leaves the deposit terminally ChargedBack.
/// The one proviso: the reduced total must stay representable.
pub proof fn lemma_chargeback_after_dispute(
    v: LedgerView,
    rd: TransactionRecord,
    rc: TransactionRecord,
)
    requires
        v.wf(),
        rd.tx_type == TxType::Dispute,
        rc.tx_type == TxType::Chargeback,
        rc.client_id == rd.client_id,
        rc.tx_id == rd.tx_id,
        !locked_guard(v, rd.client_id),
        dispute_ok(v, rd),
        fits_amount(v.accounts[rd.client_id].spec_total() - v.deposits[rd.tx_id].amount),
    ensures
        ({
            let a = v.deposits[rd.tx_id].amount;
            let acc0 = v.accounts[rd.client_id];
            let v2 = apply(apply(v, rd), rc);
            &&& v2.accounts.dom().contains(rd.client_id)
            &&& v2.accounts[rd.client_id].available == acc0.available - a
            &&& v2.accounts[rd.client_id].held == acc0.held
            &&& v2.accounts[rd.client_id].spec_total() == acc0.spec_total() - a
            &&& v2.accounts[rd.client_id].locked
            &&& v2.deposits.dom().contains(rd.tx_id)
            &&& v2.deposits[rd.tx_id].status == DepositStatus::ChargedBack
        }),
{
    let v1 = apply(v, rd);
    assert(chargeback_ok(v1, rc));
}

/// A dispute whose transaction ID is unknown is a complete no-op.
pub proof fn lemma_dispute_unknown_tx_noop(v: LedgerView, r: TransactionRecord)
    requires
        r.tx_type == TxType::Dispute,
        !v.deposits.dom().contains(r.tx_id),
    ensures
        apply(v, r) == v,
{
}

/// A dispute whose claimed client does not own the referenced deposit is a
/// complete no-op: neither client's balances change.
pub proof fn lemma_dispute_wrong_client_noop(v: LedgerView, r: TransactionRecord)
    requires
        r.tx_type == TxType::Dispute,
        v.deposits.dom().contains(r.tx_id),
        v.deposits[r.tx_id].client_id != r.client_id,
    ensures
        apply(v, r) == v,
{
}

/// Resolving a deposit that is not currently disputed is a complete no-op.
pub proof fn lemma_resolve_undisputed_noop(v: LedgerView, r: TransactionRecord)
    requires
        r.tx_type == TxType::Resolve,
        v.deposits.dom().contains(r.tx_id) ==> v.deposits[r.tx_id].status != DepositStatus::Disputed,
    ensures
        apply(v, r) == v,
{
}

/// Charging back a deposit that is not currently disputed is a complete
/// no-op: balances unchanged, account not locked.
pub proof fn lemma_chargeback_undisputed_noop(v: LedgerView, r: TransactionRecord)
    requires
        r.tx_type == TxType::Chargeback,
        v.deposits.dom().contains(r.tx_id) ==> v.deposits[r.tx_id].status != DepositStatus::Disputed,
    ensures
        apply(v, r) == v,
{
}

/// A deposit already disputed (or charged back) cannot be disputed again:
/// the second dispute is a complete no-op.
pub proof fn lemma_second_dispute_noop(v: LedgerView, r: TransactionRecord)
    requires
        r.tx_type == TxType::Dispute,
        v.deposits.dom().contains(r.tx_id),
        v.deposits[r.tx_id].status != DepositStatus::Normal,
    ensures
        apply(v, r) == v,
{
}

/// A deposit whose transaction ID was already used by a successful deposit
/// is a complete no-op, whatever its amount or client: the first deposit's
/// record and balance are preserved.
pub proof fn lemma_duplicate_deposit_noop(v: LedgerView, r: TransactionRecord)
    requires
        r.tx_type == TxType::Deposit,
        v.deposits.dom().contains(r.tx_id),
    ensures
        apply(v, r) == v,
{
}

/// A deposit carrying no amount is a complete no-op; in particular it never
/// creates an account.
pub proof fn lemma_deposit_no_amount_noop(v: LedgerView, r: TransactionRecord)
    requires
        r.tx_type == TxType::Deposit,
        r.amount is None,
    ensures
        apply(v, r) == v,
{
}

/// A withdrawal carrying no amount is a complete no-op: balances unchanged,
/// and no account is created.
pub proof fn lemma_withdrawal_no_amount_noop(v: LedgerView, r: TransactionRecord)
    requires
        r.tx_type == TxType::Withdrawal,
        r.amount is None,
    ensures
        apply(v, r) == v,
{
}

/// Disputing a deposit after an intervening withdrawal drives `available`
/// negative: from an empty ledger, deposit `a`, withdraw `w`, then dispute
/// the deposit, and the account shows `available == -w`, `held == a`,
/// `total == a - w`, not locked.
pub proof fn lemma_dispute_after_withdrawal_goes_negative(
    c: ClientId,
    t_dep: TxId,
    t_wd: TxId,
    a: Amount,
    w: Amount,
)
    requires
        0 <= w <= a,
        t_wd != t_dep,
    ensures
        ({
            let rs = seq![
                TransactionRecord {
                    tx_type: TxType::Deposit,
                    client_id: c,
                    tx_id: t_dep,
                    amount: Some(a),
                },
                TransactionRecord {
                    tx_type: TxType::Withdrawal,
                    client_id: c,
                    tx_id: t_wd,
                    amount: Some(w),
                },
                TransactionRecord {
                    tx_type: TxType::Dispute,
                    client_id: c,
                    tx_id: t_dep,
                    amount: None,
                },
            ];
            let v = run(LedgerView::init(), rs);
            &&& v.accounts.dom().contains(c)
            &&& v.accounts[c].available == -w
            &&& v.accounts[c].held == a
            &&& v.accounts[c].spec_total() == a - w
            &&& !v.accounts[c].locked
        }),
{
    let r0 = TransactionRecord {
        tx_type: TxType::Deposit,
        client_id: c,
        tx_id: t_dep,
        amount: Some(a),
    };
    let r1 = TransactionRecord {
        tx_type: TxType::Withdrawal,
        client_id: c,
        tx_id: t_wd,
        amount: Some(w),
    };
    let r2 = TransactionRecord {
        tx_type: TxType::Dispute,
        client_id: c,
        tx_id: t_dep,
        amount: None,
    };
    let rs = seq![r0, r1, r2];
    let v0 = LedgerView::init();
    let v1 = apply(v0, r0);
    let v2 = apply(v1, r1);
    let v3 = apply(v2, r2);
    let s2 = seq![r1, r2];
    let s1 = seq![r2];
    let s0 = Seq::<TransactionRecord>::empty();
    assert(rs.drop_first() =~= s2);
    assert(s2.drop_first() =~= s1);
    assert(s1.drop_first() =~= s0);
    assert(run(v0, rs) == run(v1, s2));
    assert(run(v1, s2) == run(v2, s1));
    assert(run(v2, s1) == run(v3, s0));
    assert(run(v0, rs) == v3);
    assert(deposit_ok(v0, r0));
    assert(v1.accounts[c].available == a);
    assert(withdraw_ok(account_or_new(v1, c), w as int));
    assert(v2.accounts[c].available == a - w);
    assert(dispute_ok(v2, r2));
    assert(v3.accounts[c].available == -w);
}

/// A stored deposit is never deleted, and its owning client and amount
/// never change after creation; only its status moves.
pub proof fn lemma_deposit_owner_and_amount_stable(
    v: LedgerView,
    r: TransactionRecord,
    t: TxId,
)
    requires
        v.deposits.dom().contains(t),
    ensures
        apply(v, r).deposits.dom().contains(t),
        apply(v, r).deposits[t].client_id == v.deposits[t].client_id,
        apply(v, r).deposits[t].amount == v.deposits[t].amount,
{
}

/// ChargedBack is terminal: no record moves a charged-back deposit to any
/// other status.
pub proof fn lemma_chargeback_terminal(v: LedgerView, r: TransactionRecord, t: TxId)
    requires
        v.deposits.dom().contains(t),
        v.deposits[t].status == DepositStatus::ChargedBack,
    ensures
        apply(v, r).deposits.dom().contains(t),
        apply(v, r).deposits[t].status == DepositStatus::ChargedBack,
{
}

/// Once an account is locked, applying any record leaves that account — its
/// balances and its locked flag — exactly as it was.
pub proof fn lemma_locked_account_frozen(v: LedgerView, r: TransactionRecord, c: ClientId)
    requires
        v.wf(),
        v.accounts.dom().contains(c),
        v.accounts[c].locked,
    ensures
        apply(v, r).accounts.dom().contains(c),
        apply(v, r).accounts[c] == v.accounts[c],
{
    if r.client_id == c {
        assert(locked_guard(v, c));
    }
}

/// Once an account is locked, no subsequent stream of records of any kind
/// changes its balances or unlocks it.
pub proof fn lemma_locked_account_frozen_run(v: LedgerView, rs: Seq<TransactionRecord>, c: ClientId)
    requires
        v.wf(),
        v.accounts.dom().contains(c),
        v.accounts[c].locked,
    ensures
        run(v, rs).accounts.dom().contains(c),
        run(v, rs).accounts[c] == v.accounts[c],
    decreases rs.len(),
{
    if rs.len() > 0 {
        lemma_locked_account_frozen(v, rs[0], c);
        lemma_apply_preserves_wf(v, rs[0]);
        lemma_locked_account_frozen_run(apply(v, rs[0]), rs.drop_first(), c);
    }
}

} // verus!
