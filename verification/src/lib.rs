//! Household bookkeeping: categories, transactions, and period-based
//! financial reports (monthly, yearly, and by category).
//!
//! The reporting engine is pure: it reads a snapshot of transactions and
//! categories and produces summary values, with contracts that pin the
//! totals, the per-category groups, and the net balance exactly.

pub mod categories;
pub mod config;
pub mod date;
pub mod format;
pub mod laws;
pub mod reports;
pub mod serializers;
pub mod shared;
pub mod sums;
pub mod text;
pub mod transactions;
