use kakeboor::categories::{Category, CategoryType};
use kakeboor::date::Date;
use kakeboor::reports::{
    by_category_report, by_category_report_for, monthly_report, monthly_report_for, yearly_report,
    yearly_report_for, CategoryReportQuery, CategorySummary, MonthlyReportQuery, YearlyReportQuery,
};
use kakeboor::transactions::{Transaction, TransactionType};

fn rdate(y: i32, m: u32, d: u32) -> Date {
    Date::new(y, m, d).unwrap()
}

fn rtx(id: i64, amount: i64, category_id: i64, y: i32, m: u32, d: u32, ty: TransactionType) -> Transaction {
    Transaction::new(id, amount, category_id, format!("tx {}", id), rdate(y, m, d), ty)
}

fn rcat(id: i64, name: &str, ty: CategoryType) -> Category {
    Category::new(id, String::from(name), ty)
}

fn rfind<'a>(groups: &'a [CategorySummary], id: i64) -> &'a CategorySummary {
    groups
        .iter()
        .find(|g| g.category_id == id)
        .expect("no group for that category")
}

fn example_data() -> (Vec<Transaction>, Vec<Category>) {
    let txs = vec![
        rtx(1, 250000, 1, 2026, 1, 25, TransactionType::Income),
        rtx(2, 1500, 2, 2026, 1, 26, TransactionType::Expense),
    ];
    let cats = vec![rcat(1, "Salary", CategoryType::Income)];
    (txs, cats)
}

#[test]
fn monthly_report_example() {
    let (txs, cats) = example_data();
    let r = monthly_report(&txs, &cats, 2026, 1);
    assert_eq!(r.year, 2026);
    assert_eq!(r.month, 1);
    assert_eq!(r.total_income, 250000);
    assert_eq!(r.total_expense, 1500);
    assert_eq!(r.net_balance, r.total_income - r.total_expense);
    assert_eq!(r.income_by_category.len(), 1);
    let salary = rfind(&r.income_by_category, 1);
    assert_eq!(salary.category_name, "Salary");
    assert_eq!(salary.total_amount, 250000);
    assert_eq!(salary.transaction_count, 1);
    assert_eq!(r.expense_by_category.len(), 1);
    let unknown = rfind(&r.expense_by_category, 2);
    assert_eq!(unknown.category_name, "Unknown");
    assert_eq!(unknown.total_amount, 1500);
    assert_eq!(unknown.transaction_count, 1);
}

#[test]
fn yearly_report_example() {
    let (txs, _cats) = example_data();
    let r = yearly_report(&txs, 2026);
    assert_eq!(r.year, 2026);
    assert_eq!(r.total_income, 250000);
    assert_eq!(r.total_expense, 1500);
    assert_eq!(r.monthly_summary.len(), 12);
    assert_eq!(r.monthly_summary[0].month, 1);
    assert_eq!(r.monthly_summary[0].total_income, 250000);
    assert_eq!(r.monthly_summary[0].total_expense, 1500);
    for k in 1..12 {
        assert_eq!(r.monthly_summary[k].total_income, 0);
        assert_eq!(r.monthly_summary[k].total_expense, 0);
        assert_eq!(r.monthly_summary[k].net_balance, 0);
    }
}

fn richer_data() -> (Vec<Transaction>, Vec<Category>) {
    let txs = vec![
        rtx(1, 300000, 1, 2025, 1, 25, TransactionType::Income),
        rtx(2, 2000, 2, 2025, 1, 26, TransactionType::Expense),
        rtx(3, 800, 2, 2025, 2, 2, TransactionType::Expense),
        rtx(4, 1200, 3, 2025, 2, 14, TransactionType::Expense),
        rtx(5, 50000, 1, 2025, 2, 25, TransactionType::Income),
        rtx(6, 700, 2, 2025, 12, 31, TransactionType::Expense),
        rtx(7, 900, 9, 2026, 1, 1, TransactionType::Expense),
    ];
    let cats = vec![
        rcat(1, "Salary", CategoryType::Income),
        rcat(2, "Food", CategoryType::Expense),
        rcat(3, "Transport", CategoryType::Expense),
    ];
    (txs, cats)
}

#[test]
fn net_balance_in_all_reports() {
    let (txs, cats) = richer_data();
    let m = monthly_report(&txs, &cats, 2025, 2);
    assert_eq!(m.total_income, 50000);
    assert_eq!(m.total_expense, 2000);
    assert_eq!(m.net_balance, 48000);
    let y = yearly_report(&txs, 2025);
    assert_eq!(y.total_income, 350000);
    assert_eq!(y.total_expense, 4700);
    assert_eq!(y.net_balance, 345300);
    let c = by_category_report(&txs, &cats, None, None);
    assert_eq!(c.total_income, 350000 + 0);
    assert_eq!(c.total_expense, 4700 + 900);
    assert_eq!(c.total_income - c.total_expense, 350000 - 5600);
}

#[test]
fn yearly_summary_shape_is_fixed() {
    let r = yearly_report(&Vec::new(), 2031);
    assert_eq!(r.monthly_summary.len(), 12);
    for k in 0..12 {
        assert_eq!(r.monthly_summary[k].month as usize, k + 1);
        assert_eq!(r.monthly_summary[k].total_income, 0);
        assert_eq!(r.monthly_summary[k].total_expense, 0);
    }
    let (txs, _) = richer_data();
    let r = yearly_report(&txs, 2025);
    assert_eq!(r.monthly_summary.len(), 12);
    for k in 0..12 {
        assert_eq!(r.monthly_summary[k].month as usize, k + 1);
    }
}

#[test]
fn yearly_breakdown_matches_totals() {
    let (txs, _) = richer_data();
    let r = yearly_report(&txs, 2025);
    let income_sum: i64 = r.monthly_summary.iter().map(|m| m.total_income).sum();
    let expense_sum: i64 = r.monthly_summary.iter().map(|m| m.total_expense).sum();
    assert_eq!(income_sum, r.total_income);
    assert_eq!(expense_sum, r.total_expense);
}

#[test]
fn unbounded_category_report_accounts_every_transaction() {
    let (txs, cats) = richer_data();
    let r = by_category_report(&txs, &cats, None, None);
    let amount_sum: i64 = r.categories.iter().map(|g| g.total_amount).sum();
    let count_sum: i32 = r.categories.iter().map(|g| g.transaction_count).sum();
    let all_amounts: i64 = txs.iter().map(|t| t.amount).sum();
    assert_eq!(amount_sum, all_amounts);
    assert_eq!(amount_sum, r.total_income + r.total_expense);
    assert_eq!(count_sum as usize, txs.len());
}

#[test]
fn dangling_category_reference_counts_as_unknown() {
    let (txs, cats) = richer_data();
    let r = by_category_report(&txs, &cats, None, None);
    let stray = rfind(&r.categories, 9);
    assert_eq!(stray.category_name, "Unknown");
    assert_eq!(stray.total_amount, 900);
    assert_eq!(stray.transaction_count, 1);
    assert_eq!(r.total_expense, 4700 + 900);
}

#[test]
fn reports_are_idempotent() {
    let (txs, cats) = richer_data();
    assert_eq!(monthly_report(&txs, &cats, 2025, 1), monthly_report(&txs, &cats, 2025, 1));
    assert_eq!(yearly_report(&txs, 2025), yearly_report(&txs, 2025));
    let b1 = by_category_report(&txs, &cats, Some(String::from("2025-01-01")), None);
    let b2 = by_category_report(&txs, &cats, Some(String::from("2025-01-01")), None);
    assert_eq!(b1, b2);
}

#[test]
fn month_out_of_range_matches_nothing() {
    let (txs, cats) = richer_data();
    let r = monthly_report(&txs, &cats, 2025, 13);
    assert_eq!(r.month, 13);
    assert_eq!(r.total_income, 0);
    assert_eq!(r.total_expense, 0);
    assert_eq!(r.net_balance, 0);
    assert!(r.income_by_category.is_empty());
    assert!(r.expense_by_category.is_empty());
}

#[test]
fn empty_year_is_all_zero() {
    let (txs, cats) = richer_data();
    let r = monthly_report(&txs, &cats, 1999, 1);
    assert_eq!(r.total_income, 0);
    assert_eq!(r.total_expense, 0);
    let y = yearly_report(&txs, 1999);
    assert_eq!(y.total_income, 0);
    assert_eq!(y.total_expense, 0);
}

#[test]
fn date_bounds_filter_inclusively() {
    let (txs, cats) = richer_data();
    let r = by_category_report(
        &txs,
        &cats,
        Some(String::from("2025-01-26")),
        Some(String::from("2025-02-14")),
    );
    assert_eq!(r.total_income, 0);
    assert_eq!(r.total_expense, 2000 + 800 + 1200);
    let count_sum: i32 = r.categories.iter().map(|g| g.transaction_count).sum();
    assert_eq!(count_sum, 3);
    assert_eq!(r.start_date.as_deref(), Some("2025-01-26"));
    assert_eq!(r.end_date.as_deref(), Some("2025-02-14"));
}

#[test]
fn malformed_date_bound_is_ignored() {
    let (txs, cats) = richer_data();
    let unbounded = by_category_report(&txs, &cats, None, None);
    let r = by_category_report(&txs, &cats, Some(String::from("not-a-date")), None);
    assert_eq!(r.total_income, unbounded.total_income);
    assert_eq!(r.total_expense, unbounded.total_expense);
    assert_eq!(r.categories, unbounded.categories);
    assert_eq!(r.start_date.as_deref(), Some("not-a-date"));
    assert_eq!(r.end_date, None);
    let bad_day = by_category_report(&txs, &cats, Some(String::from("2025-02-30")), None);
    assert_eq!(bad_day.total_expense, unbounded.total_expense);
}

#[test]
fn query_defaults_fill_from_today() {
    let (txs, cats) = richer_data();
    let q = MonthlyReportQuery { year: Some(2025), month: Some(2) };
    let r = monthly_report_for(&txs, &cats, &q);
    assert_eq!(r.year, 2025);
    assert_eq!(r.month, 2);
    assert_eq!(r.total_income, 50000);
    let q = MonthlyReportQuery { year: None, month: None };
    let r = monthly_report_for(&txs, &cats, &q);
    assert!((1..=12).contains(&r.month));
    let q = YearlyReportQuery { year: Some(2025) };
    let y = yearly_report_for(&txs, &q);
    assert_eq!(y.year, 2025);
    assert_eq!(y.total_income, 350000);
    let q = CategoryReportQuery {
        start_date: Some(String::from("2026-01-01")),
        end_date: None,
    };
    let c = by_category_report_for(&txs, &cats, q);
    assert_eq!(c.total_expense, 900);
    assert_eq!(c.start_date.as_deref(), Some("2026-01-01"));
}

#[test]
fn category_can_mix_transaction_types() {
    let txs = vec![
        rtx(1, 100, 7, 2025, 3, 1, TransactionType::Income),
        rtx(2, 40, 7, 2025, 3, 2, TransactionType::Expense),
    ];
    let cats = vec![rcat(7, "Side job", CategoryType::Income)];
    let r = by_category_report(&txs, &cats, None, None);
    assert_eq!(r.categories.len(), 1);
    let g = rfind(&r.categories, 7);
    assert_eq!(g.total_amount, 140);
    assert_eq!(g.transaction_count, 2);
    assert_eq!(r.total_income, 100);
    assert_eq!(r.total_expense, 40);
}

#[test]
fn duplicate_category_ids_resolve_to_last_name() {
    let txs = vec![rtx(1, 10, 5, 2025, 6, 1, TransactionType::Expense)];
    let cats = vec![
        rcat(5, "First", CategoryType::Expense),
        rcat(5, "Second", CategoryType::Expense),
    ];
    let r = monthly_report(&txs, &cats, 2025, 6);
    let g = rfind(&r.expense_by_category, 5);
    assert_eq!(g.category_name, "Second");
}
