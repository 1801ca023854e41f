//! A verified in-memory ledger engine.
//!
//! The engine consumes an ordered stream of transaction records (deposits,
//! withdrawals, and the dispute/resolve/chargeback cycle that can reverse a
//! prior deposit) and maintains one account per client. Every rejection is a
//! silent no-op: a malformed or inapplicable record never aborts processing of
//! the rest of the stream.
//!
//! Monetary amounts are exact fixed-point decimals held as a signed count of
//! ten-thousandths of a currency unit, so repeated additions and subtractions
//! never drift.

pub mod types;
pub mod engine;
pub mod laws;
