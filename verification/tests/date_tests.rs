use kakeboor::date::{days_in_month, is_leap_year, parse_date, today, Date};

#[test]
fn date_new_accepts_real_calendar_days() {
    assert!(Date::new(2026, 1, 31).is_some());
    assert!(Date::new(2026, 4, 30).is_some());
    assert!(Date::new(2024, 2, 29).is_some());
    assert!(Date::new(2000, 2, 29).is_some());
}

#[test]
fn date_new_rejects_impossible_days() {
    assert!(Date::new(2026, 0, 1).is_none());
    assert!(Date::new(2026, 13, 1).is_none());
    assert!(Date::new(2026, 1, 0).is_none());
    assert!(Date::new(2026, 1, 32).is_none());
    assert!(Date::new(2026, 4, 31).is_none());
    assert!(Date::new(2026, 2, 29).is_none());
    assert!(Date::new(1900, 2, 29).is_none());
}

#[test]
fn leap_year_rule() {
    assert!(is_leap_year(2024));
    assert!(!is_leap_year(2026));
    assert!(!is_leap_year(1900));
    assert!(is_leap_year(2000));
    assert_eq!(days_in_month(2024, 2), 29);
    assert_eq!(days_in_month(2026, 2), 28);
    assert_eq!(days_in_month(2026, 9), 30);
    assert_eq!(days_in_month(2026, 12), 31);
}

#[test]
fn date_order_is_chronological() {
    let a = Date::new(2025, 12, 31).unwrap();
    let b = Date::new(2026, 1, 1).unwrap();
    let c = Date::new(2026, 1, 26).unwrap();
    assert!(a.lte(&b));
    assert!(!b.lte(&a));
    assert!(b.lte(&c));
    assert!(c.lte(&c));
}

#[test]
fn parse_date_reads_calendar_text() {
    let d = parse_date("2026-01-25").expect("parses");
    assert_eq!(d, Date::new(2026, 1, 25).unwrap());
    assert!(parse_date("2026-02-30").is_none());
    assert!(parse_date("not-a-date").is_none());
    assert!(parse_date("").is_none());
    assert!(parse_date("2026-01").is_none());
}

#[test]
fn today_is_a_real_date() {
    let d = today();
    assert!((1..=12).contains(&d.month));
    assert!(d.day >= 1 && d.day <= days_in_month(d.year, d.month));
}
