//! Tests for the ledger engine's per-kind rules and the dispute cycle.
//! Amounts are fixed-point: a count of ten-thousandths of a currency unit,
//! so `200_000` is 20.0.

use ledger::engine::Engine;
use ledger::types::{Account, Amount, ClientId, TransactionRecord, TxId, TxType};

fn tx(tx_type: TxType, client_id: ClientId, tx_id: TxId, amount: Option<Amount>) -> TransactionRecord {
    TransactionRecord { tx_type, client_id, tx_id, amount }
}

fn get_account(engine: &Engine, client_id: ClientId) -> &Account {
    engine.accounts.get(&client_id).expect("account not found")
}

#[test]
fn resolve_returns_funds() {
    let mut engine = Engine::new();
    engine.process(tx(TxType::Deposit, 1, 1, Some(200_000)));
    engine.process(tx(TxType::Dispute, 1, 1, None));
    engine.process(tx(TxType::Resolve, 1, 1, None));

    let acc = get_account(&engine, 1);
    assert_eq!(acc.available, 200_000);
    assert_eq!(acc.held, 0);
    assert!(!acc.locked);
}

#[test]
fn chargeback_removes_held_and_locks() {
    let mut engine = Engine::new();
    engine.process(tx(TxType::Deposit, 1, 1, Some(200_000)));
    engine.process(tx(TxType::Dispute, 1, 1, None));
    engine.process(tx(TxType::Chargeback, 1, 1, None));

    let acc = get_account(&engine, 1);
    assert_eq!(acc.available, 0);
    assert_eq!(acc.held, 0);
    assert_eq!(acc.total(), 0);
    assert!(acc.locked);
}

#[test]
fn dispute_nonexistent_tx_ignored() {
    let mut engine = Engine::new();
    engine.process(tx(TxType::Deposit, 1, 1, Some(100_000)));
    engine.process(tx(TxType::Dispute, 1, 99, None));

    let acc = get_account(&engine, 1);
    assert_eq!(acc.available, 100_000);
    assert_eq!(acc.held, 0);
}

#[test]
fn dispute_wrong_client_ignored() {
    let mut engine = Engine::new();
    engine.process(tx(TxType::Deposit, 1, 1, Some(100_000)));
    engine.process(tx(TxType::Deposit, 2, 2, Some(50_000)));
    // Client 2 tries to dispute client 1's deposit
    engine.process(tx(TxType::Dispute, 2, 1, None));

    let acc1 = get_account(&engine, 1);
    assert_eq!(acc1.available, 100_000);
    assert_eq!(acc1.held, 0);

    let acc2 = get_account(&engine, 2);
    assert_eq!(acc2.available, 50_000);
    assert_eq!(acc2.held, 0);
}

#[test]
fn resolve_without_dispute_ignored() {
    let mut engine = Engine::new();
    engine.process(tx(TxType::Deposit, 1, 1, Some(100_000)));
    engine.process(tx(TxType::Resolve, 1, 1, None));

    let acc = get_account(&engine, 1);
    assert_eq!(acc.available, 100_000);
    assert_eq!(acc.held, 0);
}

#[test]
fn chargeback_without_dispute_ignored() {
    let mut engine = Engine::new();
    engine.process(tx(TxType::Deposit, 1, 1, Some(100_000)));
    engine.process(tx(TxType::Chargeback, 1, 1, None)); // not disputed

    let acc = get_account(&engine, 1);
    assert_eq!(acc.available, 100_000);
    assert!(!acc.locked);
}

#[test]
fn double_dispute_ignored() {
    let mut engine = Engine::new();
    engine.process(tx(TxType::Deposit, 1, 1, Some(100_000)));
    engine.process(tx(TxType::Dispute, 1, 1, None));
    engine.process(tx(TxType::Dispute, 1, 1, None)); // already disputed

    let acc = get_account(&engine, 1);
    assert_eq!(acc.available, 0);
    assert_eq!(acc.held, 100_000);
}

#[test]
fn duplicate_deposit_tx_id_ignored() {
    let mut engine = Engine::new();
    engine.process(tx(TxType::Deposit, 1, 1, Some(100_000)));
    engine.process(tx(TxType::Deposit, 1, 1, Some(200_000))); // duplicate tx_id

    let acc = get_account(&engine, 1);
    // second deposit should be ignored; balance stays at 10.0
    assert_eq!(acc.available, 100_000);
}

#[test]
fn deposit_with_no_amount_ignored() {
    let mut engine = Engine::new();
    engine.process(tx(TxType::Deposit, 1, 1, None));

    assert!(engine.accounts.get(&1).is_none());
}

#[test]
fn withdrawal_with_no_amount_ignored() {
    let mut engine = Engine::new();
    engine.process(tx(TxType::Deposit, 1, 1, Some(100_000)));
    engine.process(tx(TxType::Withdrawal, 1, 2, None));

    let acc = get_account(&engine, 1);
    assert_eq!(acc.available, 100_000); // unchanged
}

#[test]
fn dispute_after_partial_withdrawal_makes_available_negative() {
    let mut engine = Engine::new();
    engine.process(tx(TxType::Deposit, 1, 1, Some(100_000)));
    engine.process(tx(TxType::Withdrawal, 1, 2, Some(60_000)));
    // available = 4.0, now dispute the original 10.0 deposit
    engine.process(tx(TxType::Dispute, 1, 1, None));

    let acc = get_account(&engine, 1);
    // available goes negative: 4.0 - 10.0 = -6.0
    assert_eq!(acc.available, -60_000);
    assert_eq!(acc.held, 100_000);
    assert_eq!(acc.total(), 40_000);
}

#[test]
fn totals_follow_deposits_withdrawals_and_chargebacks() {
    // Conservation: total == deposits - successful withdrawals - chargebacks,
    // with a dispute/resolve cycle netting to zero along the way.
    let mut engine = Engine::new();
    engine.process(tx(TxType::Deposit, 1, 1, Some(300_000)));
    engine.process(tx(TxType::Deposit, 1, 2, Some(200_000)));
    engine.process(tx(TxType::Withdrawal, 1, 3, Some(150_000)));
    engine.process(tx(TxType::Dispute, 1, 2, None));
    engine.process(tx(TxType::Resolve, 1, 2, None));
    engine.process(tx(TxType::Withdrawal, 1, 4, Some(9_999_999))); // insufficient: no-op
    engine.process(tx(TxType::Dispute, 1, 1, None));
    engine.process(tx(TxType::Chargeback, 1, 1, None));

    let acc = get_account(&engine, 1);
    // 30.0 + 20.0 - 15.0 - 30.0 (charged back) = 5.0
    assert_eq!(acc.total(), 50_000);
    assert_eq!(acc.available, 50_000);
    assert_eq!(acc.held, 0);
    assert!(acc.locked);
}

#[test]
fn locked_account_drops_every_kind() {
    let mut engine = Engine::new();
    engine.process(tx(TxType::Deposit, 1, 1, Some(200_000)));
    engine.process(tx(TxType::Deposit, 1, 2, Some(50_000)));
    engine.process(tx(TxType::Dispute, 1, 1, None));
    engine.process(tx(TxType::Chargeback, 1, 1, None)); // locks the account

    engine.process(tx(TxType::Deposit, 1, 5, Some(10_000)));
    engine.process(tx(TxType::Withdrawal, 1, 6, Some(10_000)));
    engine.process(tx(TxType::Dispute, 1, 2, None));
    engine.process(tx(TxType::Resolve, 1, 2, None));
    engine.process(tx(TxType::Chargeback, 1, 2, None));

    let acc = get_account(&engine, 1);
    assert_eq!(acc.available, 50_000);
    assert_eq!(acc.held, 0);
    assert!(acc.locked);
}

#[test]
fn insufficient_withdrawal_still_creates_account() {
    let mut engine = Engine::new();
    engine.process(tx(TxType::Withdrawal, 1, 1, Some(10_000)));

    // The account is touched (created) even though no funds moved.
    let acc = get_account(&engine, 1);
    assert_eq!(acc.available, 0);
    assert_eq!(acc.held, 0);
    assert!(!acc.locked);
}

#[test]
fn deposit_overflowing_available_ignored() {
    let mut engine = Engine::new();
    engine.process(tx(TxType::Deposit, 1, 1, Some(i64::MAX)));
    engine.process(tx(TxType::Deposit, 1, 2, Some(1))); // would overflow: dropped

    let acc = get_account(&engine, 1);
    assert_eq!(acc.available, i64::MAX);
    assert!(engine.deposits.get(&2).is_none());
}

#[test]
fn zero_amount_deposit_creates_account() {
    let mut engine = Engine::new();
    engine.process(tx(TxType::Deposit, 1, 1, Some(0)));

    let acc = get_account(&engine, 1);
    assert_eq!(acc.available, 0);
    assert_eq!(acc.held, 0);
}

#[test]
fn output_reports_every_account_once() {
    let mut engine = Engine::new();
    engine.process(tx(TxType::Deposit, 2, 1, Some(100_000)));
    engine.process(tx(TxType::Deposit, 1, 2, Some(200_000)));
    engine.process(tx(TxType::Dispute, 1, 2, None));

    let rows = engine.output();
    assert_eq!(rows.len(), 2);
    // Rows come out in order of first account creation.
    assert_eq!(rows[0].client, 2);
    assert_eq!(rows[0].available, 100_000);
    assert_eq!(rows[0].held, 0);
    assert_eq!(rows[0].total, 100_000);
    assert!(!rows[0].locked);
    assert_eq!(rows[1].client, 1);
    assert_eq!(rows[1].available, 0);
    assert_eq!(rows[1].held, 200_000);
    assert_eq!(rows[1].total, 200_000);
    assert!(!rows[1].locked);
}

#[test]
fn total_is_available_plus_held() {
    let acc = Account { available: 30_000, held: 12_345, locked: false };
    assert_eq!(acc.total(), 42_345);
}
