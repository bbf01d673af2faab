//! A single-pass ledger engine: it applies an ordered log of deposits,
//! withdrawals, disputes, resolves and chargebacks to per-client accounts,
//! with a dispute lifecycle that can hold, release or charge back a deposit.
//!
//! Amounts are fixed-point integers counted in ten-thousandths of a unit.

pub mod client;
pub mod context;
pub mod errors;
pub mod header;
pub mod laws;
pub mod transaction;

pub use client::{Balance, Client, UNITS_PER_WHOLE};
pub use context::{Context, Ledger};
pub use errors::ProcessError;
pub use transaction::{Transaction, TransactionStatus, TransactionType};
