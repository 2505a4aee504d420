use nft_manager::date::Date;

#[test]
fn test_parse_valid_date() {
    assert_eq!(
        Date::parse("2023-11-05"),
        Some(Date { year: 2023, month: 11, day: 5 })
    );
}

#[test]
fn test_parse_month_out_of_range() {
    assert_eq!(Date::parse("2023-13-05"), None);
    assert_eq!(Date::parse("2023-00-05"), None);
}

#[test]
fn test_parse_day_out_of_range() {
    assert_eq!(Date::parse("2023-11-31"), None);
    assert_eq!(Date::parse("2023-11-00"), None);
}

#[test]
fn test_parse_leap_years() {
    assert_eq!(
        Date::parse("2024-02-29"),
        Some(Date { year: 2024, month: 2, day: 29 })
    );
    assert_eq!(Date::parse("2023-02-29"), None);
    assert_eq!(Date::parse("1900-02-29"), None);
    assert_eq!(
        Date::parse("2000-02-29"),
        Some(Date { year: 2000, month: 2, day: 29 })
    );
}

#[test]
fn test_parse_malformed_text() {
    assert_eq!(Date::parse(""), None);
    assert_eq!(Date::parse("2023-1-05"), None);
    assert_eq!(Date::parse("05/11/2023"), None);
    assert_eq!(Date::parse("data inválida"), None);
    assert_eq!(Date::parse("2023-11-05 "), None);
}

#[test]
fn test_date_text() {
    let d = Date::from_ymd_opt(2023, 1, 5).unwrap();
    assert_eq!(d.to_text(), "2023-01-05");
    let d2 = Date::from_ymd_opt(999, 12, 31).unwrap();
    assert_eq!(d2.to_text(), "0999-12-31");
}

#[test]
fn test_text_parse_round_trip() {
    let d = Date::from_ymd_opt(2024, 2, 29).unwrap();
    assert_eq!(Date::parse(&d.to_text()), Some(d));
}

#[test]
fn test_from_ymd_opt_rejects_invalid() {
    assert!(Date::from_ymd_opt(2023, 2, 30).is_none());
    assert!(Date::from_ymd_opt(2023, 0, 1).is_none());
    assert!(Date::from_ymd_opt(10000, 1, 1).is_none());
    assert!(Date::from_ymd_opt(9999, 12, 31).is_some());
}

#[test]
fn test_date_order() {
    let a = Date::from_ymd_opt(2023, 11, 5).unwrap();
    let b = Date::from_ymd_opt(2023, 12, 1).unwrap();
    assert!(a.le(&b));
    assert!(!b.le(&a));
    assert!(a.le(&a));
}
