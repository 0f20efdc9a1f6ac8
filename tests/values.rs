use ghost_api::values::{blank, text_eq, Amount, CalendarDate};

#[test]
fn calendar_dates_follow_the_gregorian_calendar() {
    assert!(CalendarDate::from_ymd(2024, 2, 29).is_some());
    assert!(CalendarDate::from_ymd(2023, 2, 29).is_none());
    assert!(CalendarDate::from_ymd(2000, 2, 29).is_some());
    assert!(CalendarDate::from_ymd(1900, 2, 29).is_none());
    assert!(CalendarDate::from_ymd(2025, 4, 31).is_none());
    assert!(CalendarDate::from_ymd(2025, 13, 1).is_none());
    assert!(CalendarDate::from_ymd(2025, 0, 1).is_none());
    assert!(CalendarDate::from_ymd(400000, 1, 1).is_none());
    let d = CalendarDate::from_ymd(2025, 1, 1).unwrap();
    assert_eq!((d.year, d.month, d.day), (2025, 1, 1));
}

#[test]
fn calendar_order() {
    let a = CalendarDate::from_ymd(2025, 1, 31).unwrap();
    let b = CalendarDate::from_ymd(2025, 2, 1).unwrap();
    assert!(b.is_after(&a));
    assert!(!a.is_after(&b));
    assert!(!a.is_after(&a));
}

#[test]
fn amounts_compare_by_value() {
    let one = Amount::new(10, 1).unwrap();
    let one_again = Amount::new(100, 2).unwrap();
    let other = Amount::new(11, 1).unwrap();
    assert!(one.value_eq(&one_again));
    assert!(!one.value_eq(&other));
    assert!(Amount::new(-120000, 2).unwrap().value_eq(&Amount::new(-1200, 0).unwrap()));
}

#[test]
fn amounts_out_of_range_are_refused() {
    assert!(Amount::new(1, 29).is_none());
    assert!(Amount::new(1i128 << 96, 0).is_none());
    assert!(Amount::new((1i128 << 96) - 1, 28).is_some());
}

#[test]
fn blank_text() {
    assert!(blank(&String::new()));
    assert!(blank(&"  \t ".to_string()));
    assert!(!blank(&" a ".to_string()));
    assert!(blank(&"\u{3000}\u{a0}\n".to_string()));
    assert!(!blank(&"\u{200b}".to_string()));
}

#[test]
fn optional_text_equality() {
    assert!(text_eq(&None, &None));
    assert!(text_eq(&Some("x".to_string()), &Some("x".to_string())));
    assert!(!text_eq(&Some("x".to_string()), &None));
    assert!(!text_eq(&Some("x".to_string()), &Some("y".to_string())));
}
