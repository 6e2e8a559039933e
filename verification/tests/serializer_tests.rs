use kakeboor::categories::{Category, CategoryType};
use kakeboor::serializers::{
    CategoryListResponse, CategoryResponse, TransactionListResponse, TransactionResponse,
};
use kakeboor::shared;

#[test]
fn category_response_copies_fields() {
    let c = Category::new(3, String::from("Transport"), CategoryType::Expense)
        .with_icon(String::from("directions_car"));
    let r = CategoryResponse::from_category(&c, String::from("2026-01-01T00:00:00+00:00"));
    assert_eq!(r.id, 3);
    assert_eq!(r.name, "Transport");
    assert_eq!(r.category_type, CategoryType::Expense);
    assert_eq!(r.icon.as_deref(), Some("directions_car"));
    assert_eq!(r.color, None);
    assert_eq!(r.created_at, "2026-01-01T00:00:00+00:00");
}

#[test]
fn list_responses_count_their_results() {
    let c = Category::new(1, String::from("Salary"), CategoryType::Income);
    let r1 = CategoryResponse::from_category(&c, String::from("t0"));
    let r2 = CategoryResponse::from_category(&c, String::from("t1"));
    let list = CategoryListResponse::new(vec![r1, r2]);
    assert_eq!(list.count, 2);
    assert_eq!(list.results.len(), 2);
    let empty = TransactionListResponse::new(Vec::<TransactionResponse>::new());
    assert_eq!(empty.count, 0);
}

#[test]
fn shared_shapes_carry_display_values() {
    let info = shared::TransactionInfo {
        id: 1,
        amount: 1500,
        category_id: 2,
        description: String::from("Lunch"),
        transaction_date: String::from("2026-01-26"),
        transaction_type: shared::TransactionType::Expense,
    };
    let list = shared::TransactionListResponse { count: 1, results: vec![info] };
    assert_eq!(list.results[0].transaction_date, "2026-01-26");
    let report = shared::MonthlyReportInfo {
        year: 2026,
        month: 1,
        total_income: 250000,
        total_expense: 1500,
        net_balance: 248500,
    };
    assert_eq!(report.net_balance, report.total_income - report.total_expense);
    let summary = shared::CategorySummaryInfo {
        category_id: 2,
        category_name: String::from("Unknown"),
        total_amount: 1500,
        transaction_count: 1,
    };
    assert_eq!(summary.category_name, "Unknown");
    let cat = shared::CategoryInfo {
        id: 1,
        name: String::from("Salary"),
        category_type: shared::CategoryType::Income,
        icon: None,
        color: None,
    };
    let cats = shared::CategoryListResponse { count: 1, results: vec![cat] };
    assert_eq!(cats.count, 1);
}
