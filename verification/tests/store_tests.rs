use kakeboor::categories::{Category, CategoryStore, CategoryType};
use kakeboor::date::Date;
use kakeboor::transactions::{Transaction, TransactionStore, TransactionType};

fn sdate(y: i32, m: u32, d: u32) -> Date {
    Date::new(y, m, d).unwrap()
}

fn seeded_categories() -> CategoryStore {
    let mut store = CategoryStore::new();
    store.create_category(
        String::from("Salary"),
        CategoryType::Income,
        Some(String::from("wallet")),
        Some(String::from("#4CAF50")),
    );
    store.create_category(
        String::from("Food"),
        CategoryType::Expense,
        Some(String::from("restaurant")),
        Some(String::from("#FF5722")),
    );
    store.create_category(
        String::from("Transport"),
        CategoryType::Expense,
        Some(String::from("directions_car")),
        Some(String::from("#2196F3")),
    );
    store
}

fn seeded_transactions() -> TransactionStore {
    let mut store = TransactionStore::new();
    store.create_transaction(
        250000,
        1,
        String::from("Monthly salary"),
        sdate(2026, 1, 25),
        TransactionType::Income,
    );
    store.create_transaction(
        1500,
        2,
        String::from("Lunch at restaurant"),
        sdate(2026, 1, 26),
        TransactionType::Expense,
    );
    store.create_transaction(
        500,
        3,
        String::from("Train fare"),
        sdate(2026, 1, 26),
        TransactionType::Expense,
    );
    store
}

#[test]
fn create_assigns_successive_category_ids() {
    let mut store = seeded_categories();
    let c = store.create_category(String::from("Entertainment"), CategoryType::Expense, None, None);
    assert_eq!(c.id, 4);
    assert_eq!(c.icon, None);
    assert_eq!(store.get_all_categories().len(), 4);
    assert_eq!(store.max_id(), 4);
}

#[test]
fn create_reuses_max_after_delete() {
    let mut store = seeded_categories();
    assert!(store.delete_category(3));
    let c = store.create_category(String::from("Books"), CategoryType::Expense, None, None);
    assert_eq!(c.id, 3);
}

#[test]
fn get_category_by_id_finds_or_not() {
    let store = seeded_categories();
    let c = store.get_category_by_id(2).expect("category 2 exists");
    assert_eq!(c.name, "Food");
    assert_eq!(c.category_type, CategoryType::Expense);
    assert!(store.get_category_by_id(42).is_none());
}

#[test]
fn update_category_changes_given_parts() {
    let mut store = seeded_categories();
    let updated = store
        .update_category(2, Some(String::from("Groceries")), None, Some(String::from("#000000")))
        .expect("category 2 exists");
    assert_eq!(updated.name, "Groceries");
    assert_eq!(updated.icon.as_deref(), Some("restaurant"));
    assert_eq!(updated.color.as_deref(), Some("#000000"));
    let fetched = store.get_category_by_id(2).unwrap();
    assert_eq!(fetched, updated);
    assert!(store.update_category(42, Some(String::from("x")), None, None).is_none());
}

#[test]
fn delete_category_reports_presence() {
    let mut store = seeded_categories();
    assert!(store.delete_category(1));
    assert!(!store.delete_category(1));
    assert_eq!(store.get_all_categories().len(), 2);
    assert!(store.get_category_by_id(1).is_none());
}

#[test]
fn create_assigns_successive_transaction_ids() {
    let mut store = seeded_transactions();
    let t = store.create_transaction(
        3000,
        4,
        String::from("Movie tickets"),
        sdate(2026, 1, 27),
        TransactionType::Expense,
    );
    assert_eq!(t.id, 4);
    assert_eq!(t.amount, 3000);
    assert_eq!(store.get_all_transactions().len(), 4);
}

#[test]
fn get_transaction_by_id_finds_or_not() {
    let store = seeded_transactions();
    let t = store.get_transaction_by_id(1).expect("transaction 1 exists");
    assert_eq!(t.amount, 250000);
    assert_eq!(t.transaction_type, TransactionType::Income);
    assert!(store.get_transaction_by_id(99).is_none());
}

#[test]
fn update_transaction_changes_given_parts() {
    let mut store = seeded_transactions();
    let updated = store
        .update_transaction(2, Some(1800), None, None, Some(sdate(2026, 1, 27)))
        .expect("transaction 2 exists");
    assert_eq!(updated.amount, 1800);
    assert_eq!(updated.category_id, 2);
    assert_eq!(updated.description, "Lunch at restaurant");
    assert_eq!(updated.transaction_date, sdate(2026, 1, 27));
    let fetched = store.get_transaction_by_id(2).unwrap();
    assert_eq!(fetched, updated);
    assert!(store.update_transaction(99, Some(1), None, None, None).is_none());
}

#[test]
fn delete_transaction_reports_presence() {
    let mut store = seeded_transactions();
    assert!(store.delete_transaction(2));
    assert!(!store.delete_transaction(2));
    assert_eq!(store.get_all_transactions().len(), 2);
}

#[test]
fn transactions_filter_by_date_range() {
    let store = seeded_transactions();
    let hits = store.get_transactions_by_date_range(sdate(2026, 1, 26), sdate(2026, 1, 31));
    assert_eq!(hits.len(), 2);
    assert!(hits.iter().all(|t| t.transaction_date == sdate(2026, 1, 26)));
    let none = store.get_transactions_by_date_range(sdate(2025, 1, 1), sdate(2025, 12, 31));
    assert!(none.is_empty());
}

#[test]
fn transactions_filter_by_category() {
    let store = seeded_transactions();
    let hits = store.get_transactions_by_category(3);
    assert_eq!(hits.len(), 1);
    assert_eq!(hits[0].description, "Train fare");
}

#[test]
fn transactions_filter_by_type() {
    let store = seeded_transactions();
    let income = store.get_transactions_by_type(TransactionType::Income);
    assert_eq!(income.len(), 1);
    assert_eq!(income[0].amount, 250000);
    let expense = store.get_transactions_by_type(TransactionType::Expense);
    assert_eq!(expense.len(), 2);
}

#[test]
fn constructors_set_fields() {
    let c = Category::new(7, String::from("Games"), CategoryType::Expense)
        .with_icon(String::from("joystick"))
        .with_color(String::from("#123456"));
    assert_eq!(c.id, 7);
    assert_eq!(c.icon.as_deref(), Some("joystick"));
    assert_eq!(c.color.as_deref(), Some("#123456"));
    let t = Transaction::new(
        9,
        42,
        7,
        String::from("cartridge"),
        sdate(2024, 2, 29),
        TransactionType::Expense,
    );
    assert_eq!(t.id, 9);
    assert_eq!(t.transaction_date, sdate(2024, 2, 29));
    assert_eq!(t.clone(), t);
}
