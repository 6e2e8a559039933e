//! Display-side shapes shared with the client application: the values it
//! shows, with dates already rendered as text.

use vstd::prelude::*;

verus! {

/// Whether a category collects income or expenses, as the client sees it.
#[derive(Clone, Copy, Debug, PartialEq, Eq, Structural)]
pub enum CategoryType {
    Income,
    Expense,
}

/// Whether a transaction brings money in or takes it out, as the client
/// sees it.
#[derive(Clone, Copy, Debug, PartialEq, Eq, Structural)]
pub enum TransactionType {
    Income,
    Expense,
}

/// A category as displayed.
#[derive(Debug, PartialEq)]
pub struct CategoryInfo {
    pub id: i64,
    pub name: String,
    pub category_type: CategoryType,
    pub icon: Option<String>,
    pub color: Option<String>,
}

/// A transaction as displayed, its date as calendar text.
#[derive(Debug, PartialEq)]
pub struct TransactionInfo {
    pub id: i64,
    pub amount: i64,
    pub category_id: i64,
    pub description: String,
    pub transaction_date: String,
    pub transaction_type: TransactionType,
}

/// A counted list of displayed categories.
#[derive(Debug, PartialEq)]
pub struct CategoryListResponse {
    pub count: usize,
    pub results: Vec<CategoryInfo>,
}

/// A counted list of displayed transactions.
#[derive(Debug, PartialEq)]
pub struct TransactionListResponse {
    pub count: usize,
    pub results: Vec<TransactionInfo>,
}

/// The monthly totals the dashboard shows.
#[derive(Clone, Copy, Debug, PartialEq, Eq, Structural)]
pub struct MonthlyReportInfo {
    pub year: i32,
    pub month: u32,
    pub total_income: i64,
    pub total_expense: i64,
    pub net_balance: i64,
}

/// One category's share of a report, as displayed.
#[derive(Debug, PartialEq)]
pub struct CategorySummaryInfo {
    pub category_id: i64,
    pub category_name: String,
    pub total_amount: i64,
    pub transaction_count: i32,
}

} // verus!
