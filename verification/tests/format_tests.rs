use kakeboor::categories::CategoryType;
use kakeboor::date::Date;
use kakeboor::format::{format_amount, format_date, number_string, padded_number};
use kakeboor::serializers::{TransactionResponse, TransactionSummary};
use kakeboor::transactions::{Transaction, TransactionType};

fn fdate(y: i32, m: u32, d: u32) -> Date {
    Date::new(y, m, d).unwrap()
}

#[test]
fn format_amount_groups_by_threes() {
    assert_eq!(format_amount(0), "0");
    assert_eq!(format_amount(5), "5");
    assert_eq!(format_amount(100), "100");
    assert_eq!(format_amount(1000), "1,000");
    assert_eq!(format_amount(1500), "1,500");
    assert_eq!(format_amount(250000), "250,000");
    assert_eq!(format_amount(1234567), "1,234,567");
    assert_eq!(format_amount(1000000000), "1,000,000,000");
}

#[test]
fn format_amount_marks_negatives() {
    assert_eq!(format_amount(-1), "-1");
    assert_eq!(format_amount(-98765), "-98,765");
    assert_eq!(format_amount(i64::MIN), "-9,223,372,036,854,775,808");
    assert_eq!(format_amount(i64::MAX), "9,223,372,036,854,775,807");
}

#[test]
fn number_string_is_decimal() {
    assert_eq!(number_string(0), "0");
    assert_eq!(number_string(907), "907");
    assert_eq!(padded_number(7, 4), "0007");
    assert_eq!(padded_number(12345, 4), "12345");
}

#[test]
fn format_date_pads_calendar_parts() {
    assert_eq!(format_date(&fdate(2026, 1, 5)), "2026-01-05");
    assert_eq!(format_date(&fdate(33, 11, 30)), "0033-11-30");
    assert_eq!(format_date(&fdate(-44, 3, 15)), "-0044-03-15");
    assert_eq!(format_date(&fdate(12026, 12, 31)), "12026-12-31");
}

#[test]
fn transaction_response_renders_date() {
    let t = Transaction::new(
        1,
        1500,
        2,
        String::from("Lunch"),
        fdate(2026, 1, 5),
        TransactionType::Expense,
    );
    let r = TransactionResponse::from_transaction(
        &t,
        String::from("2026-01-05T00:00:00+00:00"),
        String::from("2026-01-06T00:00:00+00:00"),
    );
    assert_eq!(r.transaction_date, "2026-01-05");
    assert_eq!(r.amount, 1500);
    assert_eq!(r.description, "Lunch");
    assert_eq!(r.created_at, "2026-01-05T00:00:00+00:00");
}

#[test]
fn type_labels_are_lowercase_tokens() {
    assert_eq!(TransactionType::Income.label(), "income");
    assert_eq!(TransactionType::Expense.label(), "expense");
    assert_eq!(CategoryType::Income.label(), "income");
    assert_eq!(CategoryType::Expense.label(), "expense");
}

#[test]
fn type_parse_accepts_any_capitalization() {
    assert_eq!(TransactionType::parse("income"), Ok(TransactionType::Income));
    assert_eq!(TransactionType::parse("INCOME"), Ok(TransactionType::Income));
    assert_eq!(TransactionType::parse("Expense"), Ok(TransactionType::Expense));
    assert_eq!(CategoryType::parse("eXpEnSe"), Ok(CategoryType::Expense));
}

#[test]
fn type_parse_rejects_other_tokens() {
    assert_eq!(
        TransactionType::parse("banana"),
        Err(String::from("Invalid transaction type: banana"))
    );
    assert_eq!(
        CategoryType::parse("incomes"),
        Err(String::from("Invalid category type: incomes"))
    );
}

#[test]
fn transaction_summary_totals_and_balance() {
    let txs = vec![
        Transaction::new(1, 300, 1, String::from("a"), fdate(2025, 1, 1), TransactionType::Income),
        Transaction::new(2, 120, 2, String::from("b"), fdate(2026, 5, 9), TransactionType::Expense),
        Transaction::new(3, 80, 2, String::from("c"), fdate(2027, 9, 9), TransactionType::Expense),
    ];
    let s = TransactionSummary::from_transactions(&txs);
    assert_eq!(s.total_income, 300);
    assert_eq!(s.total_expense, 200);
    assert_eq!(s.balance, 100);
    assert_eq!(s.transaction_count, 3);
}

#[test]
fn installed_apps_is_empty() {
    assert!(kakeboor::config::get_installed_apps().is_empty());
}
