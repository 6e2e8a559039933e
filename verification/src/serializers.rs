//! Request and response shapes for the boundary, and the conversions into
//! them that the library can state exactly.
//!
//! Bookkeeping timestamps are kept by the boundary, which hands them in as
//! already-rendered text.

use vstd::prelude::*;

use crate::categories::{Category, CategoryType};
use crate::date::Date;
use crate::format::{format_date, spec_format_date};
use crate::sums::{amount_of, amounts_ok, lemma_sum_by_ext, sel_by, sum_by, Period};
use crate::transactions::{type_sel, Transaction, TransactionType};

verus! {

/// Payload for creating a category.
#[derive(Debug)]
pub struct CreateCategoryRequest {
    pub name: String,
    pub category_type: CategoryType,
    pub icon: Option<String>,
    pub color: Option<String>,
}

/// Payload for updating a category; absent parts stay as stored.
#[derive(Debug)]
pub struct UpdateCategoryRequest {
    pub name: Option<String>,
    pub icon: Option<String>,
    pub color: Option<String>,
}

/// A category as the boundary serializes it.
#[derive(Debug, PartialEq)]
pub struct CategoryResponse {
    pub id: i64,
    pub name: String,
    pub category_type: CategoryType,
    pub icon: Option<String>,
    pub color: Option<String>,
    pub created_at: String,
}

impl CategoryResponse {
    /// The response for one stored category, under the given creation
    /// timestamp text.
    pub fn from_category(category: &Category, created_at: String) -> (r: CategoryResponse)
        ensures
            r.id == category.id,
            r.name == category.name,
            r.category_type == category.category_type,
            r.icon == category.icon,
            r.color == category.color,
            r.created_at == created_at,
    {
        let c = category.clone();
        CategoryResponse {
            id: c.id,
            name: c.name,
            category_type: c.category_type,
            icon: c.icon,
            color: c.color,
            created_at,
        }
    }
}

/// A counted list of category responses.
#[derive(Debug, PartialEq)]
pub struct CategoryListResponse {
    pub count: usize,
    pub results: Vec<CategoryResponse>,
}

impl CategoryListResponse {
    pub fn new(results: Vec<CategoryResponse>) -> (r: CategoryListResponse)
        ensures
            r.count == results@.len(),
            r.results == results,
    {
        let count = results.len();
        CategoryListResponse { count, results }
    }
}

/// Payload for recording a transaction.
#[derive(Debug)]
pub struct CreateTransactionRequest {
    pub amount: i64,
    pub category_id: i64,
    pub description: String,
    pub transaction_date: Date,
    pub transaction_type: TransactionType,
}

/// Payload for updating a transaction; absent parts stay as stored.
#[derive(Debug)]
pub struct UpdateTransactionRequest {
    pub amount: Option<i64>,
    pub category_id: Option<i64>,
    pub description: Option<String>,
    pub transaction_date: Option<Date>,
}

/// A transaction as the boundary serializes it, the date as calendar text.
#[derive(Debug, PartialEq)]
pub struct TransactionResponse {
    pub id: i64,
    pub amount: i64,
    pub category_id: i64,
    pub description: String,
    pub transaction_date: String,
    pub transaction_type: TransactionType,
    pub created_at: String,
    pub updated_at: String,
}

impl TransactionResponse {
    /// The response for one stored transaction, under the given bookkeeping
    /// timestamp texts.
    pub fn from_transaction(
        transaction: &Transaction,
        created_at: String,
        updated_at: String,
    ) -> (r: TransactionResponse)
        ensures
            r.id == transaction.id,
            r.amount == transaction.amount,
            r.category_id == transaction.category_id,
            r.description == transaction.description,
            r.transaction_date@ == spec_format_date(transaction.transaction_date),
            r.transaction_type == transaction.transaction_type,
            r.created_at == created_at,
            r.updated_at == updated_at,
    {
        let t = transaction.clone();
        let transaction_date = format_date(&t.transaction_date);
        TransactionResponse {
            id: t.id,
            amount: t.amount,
            category_id: t.category_id,
            description: t.description,
            transaction_date,
            transaction_type: t.transaction_type,
            created_at,
            updated_at,
        }
    }
}

/// A counted list of transaction responses.
#[derive(Debug, PartialEq)]
pub struct TransactionListResponse {
    pub count: usize,
    pub results: Vec<TransactionResponse>,
}

impl TransactionListResponse {
    pub fn new(results: Vec<TransactionResponse>) -> (r: TransactionListResponse)
        ensures
            r.count == results@.len(),
            r.results == results,
    {
        let count = results.len();
        TransactionListResponse { count, results }
    }
}

/// Aggregated totals over a list of transactions, regardless of date.
#[derive(Clone, Copy, Debug, PartialEq, Eq, Structural)]
pub struct TransactionSummary {
    pub total_income: i64,
    pub total_expense: i64,
    pub balance: i64,
    pub transaction_count: usize,
}

impl TransactionSummary {
    /// Totals a list of transactions: income and expense sums, their
    /// difference as the balance, and the count.
    pub fn from_transactions(transactions: &Vec<Transaction>) -> (r: TransactionSummary)
        requires
            amounts_ok(transactions@),
        ensures
            r.total_income == sum_by(transactions@, type_sel(TransactionType::Income), amount_of()),
            r.total_expense == sum_by(transactions@, type_sel(TransactionType::Expense), amount_of()),
            r.balance == r.total_income - r.total_expense,
            r.transaction_count == transactions@.len(),
    {
        let everywhere = Period::Between { start: None, end: None };
        let total_income = crate::reports::total_amount(
            transactions,
            &everywhere,
            Some(TransactionType::Income),
        );
        let total_expense = crate::reports::total_amount(
            transactions,
            &everywhere,
            Some(TransactionType::Expense),
        );
        proof {
            assert forall|i: int| 0 <= i < transactions@.len() implies #[trigger] sel_by(
                everywhere,
                Some(TransactionType::Income),
            )(transactions@[i]) == type_sel(TransactionType::Income)(transactions@[i]) by {}
            assert forall|i: int| 0 <= i < transactions@.len() implies #[trigger] sel_by(
                everywhere,
                Some(TransactionType::Expense),
            )(transactions@[i]) == type_sel(TransactionType::Expense)(transactions@[i]) by {}
            lemma_sum_by_ext(
                transactions@,
                sel_by(everywhere, Some(TransactionType::Income)),
                type_sel(TransactionType::Income),
                amount_of(),
            );
            lemma_sum_by_ext(
                transactions@,
                sel_by(everywhere, Some(TransactionType::Expense)),
                type_sel(TransactionType::Expense),
                amount_of(),
            );
        }
        TransactionSummary {
            total_income,
            total_expense,
            balance: total_income - total_expense,
            transaction_count: transactions.len(),
        }
    }
}

} // verus!
