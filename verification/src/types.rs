//! The data model: transaction records, stored deposits, and client accounts.

use vstd::prelude::*;

verus! {

pub type ClientId = u16;

pub type TxId = u32;

/// An exact fixed-point decimal amount, held as a signed count of
/// ten-thousandths of a currency unit.
pub type Amount = i64;

/// Does a mathematical amount fit the fixed-point representation?
pub open spec fn fits_amount(v: int) -> bool {
    i64::MIN <= v <= i64::MAX
}

/// The kind of a transaction record.
#[derive(Debug, Clone, Copy, PartialEq, Eq, Structural)]
pub enum TxType {
    Deposit,
    Withdrawal,
    Dispute,
    Resolve,
    Chargeback,
}

/// A single transaction record, as handed to the engine by the record source.
/// `amount` is present for deposits and withdrawals and ignored for the
/// dispute-cycle kinds, whose authoritative amount is the stored deposit's.
#[derive(Debug, Clone, Copy)]
pub struct TransactionRecord {
    pub tx_type: TxType,
    pub client_id: ClientId,
    pub tx_id: TxId,
    pub amount: Option<Amount>,
}

/// Tracks the lifecycle of a deposit through the dispute process:
/// `Normal -> Disputed -> {Normal, ChargedBack}`, with `ChargedBack` terminal.
#[derive(Debug, Clone, Copy, PartialEq, Eq, Structural)]
pub enum DepositStatus {
    Normal,
    Disputed,
    ChargedBack,
}

/// A stored deposit, retained so dispute-cycle records can reference it by
/// transaction ID for the life of the run.
#[derive(Debug, Clone, Copy)]
pub struct DepositRecord {
    pub client_id: ClientId,
    pub amount: Amount,
    pub status: DepositStatus,
}

/// A single client's account.
#[derive(Debug, Clone, Copy)]
pub struct Account {
    pub available: Amount,
    pub held: Amount,
    pub locked: bool,
}

impl Account {
    /// The account's total funds, as a mathematical integer.
    pub open spec fn spec_total(self) -> int {
        self.available + self.held
    }

    /// The account's total funds: available plus held.
    pub fn total(&self) -> (t: Amount)
        requires
            fits_amount(self.spec_total()),
        ensures
            t == self.spec_total(),
    {
        self.available + self.held
    }
}

impl Default for Account {
    /// A fresh account: no funds, not locked.
    fn default() -> (a: Account)
        ensures
            a.available == 0,
            a.held == 0,
            !a.locked,
    {
        Account { available: 0, held: 0, locked: false }
    }
}

/// One row of the final snapshot: a client's balances and locked flag.
#[derive(Debug, Clone, Copy)]
pub struct AccountOutput {
    pub client: ClientId,
    pub available: Amount,
    pub held: Amount,
    pub total: Amount,
    pub locked: bool,
}

} // verus!
