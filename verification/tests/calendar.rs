use sextant::{Date, Decimal, Timestamp};

#[test]
fn dates_print_in_iso_8601_with_a_sign_outside_four_digit_years() {
    assert_eq!(Date::from_ymd_opt(2024, 1, 5).unwrap().to_string(), "2024-01-05");
    assert_eq!(Date::from_ymd_opt(-44, 3, 15).unwrap().to_string(), "-0044-03-15");
    assert_eq!(Date::from_ymd_opt(12345, 6, 7).unwrap().to_string(), "+12345-06-07");
    assert_eq!(Date::from_ymd_opt(7, 11, 30).unwrap().to_string(), "0007-11-30");
}

#[test]
fn only_calendar_days_are_dates() {
    assert!(Date::from_ymd_opt(2023, 2, 29).is_none());
    assert!(Date::from_ymd_opt(2024, 2, 29).is_some());
    assert!(Date::from_ymd_opt(1900, 2, 29).is_none());
    assert!(Date::from_ymd_opt(2000, 2, 29).is_some());
    assert!(Date::from_ymd_opt(2024, 13, 1).is_none());
    assert!(Date::from_ymd_opt(2024, 4, 31).is_none());
    assert!(Date::from_ymd_opt(262143, 1, 1).is_none());
}

#[test]
fn dates_parse_from_their_text() {
    let d = Date::from_ymd_opt(12345, 6, 7).unwrap();
    assert_eq!(Date::parse("+12345-6-7"), Ok(d));
    assert_eq!(Date::parse("2024-03-09").unwrap(), Date::from_ymd_opt(2024, 3, 9).unwrap());
    assert!(Date::parse("2024-02-30").is_err());
    assert!(Date::parse("yesterday").is_err());
}

#[test]
fn dates_order_by_year_then_month_then_day() {
    let a = Date::from_ymd_opt(2023, 12, 31).unwrap();
    let b = Date::from_ymd_opt(2024, 1, 1).unwrap();
    assert!(a.is_before(&b));
    assert!(!b.is_before(&a));
    assert!(!a.is_before(&a));
}

#[test]
fn decimals_print_every_digit_of_their_scale_and_parse_back() {
    assert_eq!(Decimal::new(250, 2).to_string(), "2.50");
    assert_eq!(Decimal::new(-5, 2).to_string(), "-0.05");
    let parsed = Decimal::parse("-0.05").unwrap();
    assert_eq!((parsed.mantissa(), parsed.scale()), (-5, 2));
    assert!(Decimal::parse("12,5").is_err());
}

#[test]
fn timestamps_keep_their_seconds_and_nanoseconds() {
    let t = Timestamp::from_unix(1_700_000_000, 250);
    assert_eq!(t.unix_seconds(), 1_700_000_000);
    assert_eq!(t.subsec_nanos(), 250);
}

#[test]
fn now_is_after_the_epoch_with_a_sub_second_part() {
    let t = Timestamp::now();
    assert!(t.unix_seconds() > 1_600_000_000);
    assert!(t.subsec_nanos() < 1_000_000_000);
}

#[test]
fn a_parsed_negative_zero_reads_as_zero() {
    let z = Decimal::parse("-0").unwrap();
    assert_eq!(z.to_string(), "0");
    assert_eq!(z, Decimal::zero());
    assert_eq!(Decimal::parse("-0.00").unwrap().to_string(), "0.00");
}

#[test]
fn a_printed_negative_zero_reads_back_as_zero() {
    let minus_zero = Decimal::from_parts(0, 2, true);
    assert_eq!(minus_zero.to_string(), "-0.00");
    let back = Decimal::parse(&minus_zero.to_string()).unwrap();
    assert_eq!(back.to_string(), "0.00");
    assert_eq!(back, minus_zero);
}
