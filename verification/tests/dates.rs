use ark_holdings::date::{Date, DateFormat, parse_date};

fn d(y: u32, m: u32, day: u32) -> Date {
    Date { year: y, month: m, day }
}

#[test]
fn new_accepts_real_days() {
    assert_eq!(Date::new(2024, 1, 31), Some(d(2024, 1, 31)));
    assert_eq!(Date::new(2024, 2, 29), Some(d(2024, 2, 29)));
    assert_eq!(Date::new(2023, 2, 29), None);
    assert_eq!(Date::new(1900, 2, 29), None);
    assert_eq!(Date::new(2000, 2, 29), Some(d(2000, 2, 29)));
    assert_eq!(Date::new(2024, 4, 31), None);
    assert_eq!(Date::new(2024, 13, 1), None);
    assert_eq!(Date::new(2024, 0, 1), None);
    assert_eq!(Date::new(0, 1, 1), None);
}

#[test]
fn ordering_is_lexicographic() {
    assert!(d(2023, 12, 31).lt(d(2024, 1, 1)));
    assert!(d(2024, 1, 1).lt(d(2024, 1, 2)));
    assert!(d(2024, 1, 2).lt(d(2024, 2, 1)));
    assert!(!d(2024, 1, 1).lt(d(2024, 1, 1)));
    assert!(d(2024, 1, 1).le(d(2024, 1, 1)));
}

#[test]
fn parse_iso() {
    assert_eq!(parse_date("2024-01-02", DateFormat::Iso), Some(d(2024, 1, 2)));
    assert_eq!(parse_date("2024-1-2", DateFormat::Iso), Some(d(2024, 1, 2)));
    assert_eq!(parse_date("2024-02-30", DateFormat::Iso), None);
    assert_eq!(parse_date("01/02/2024", DateFormat::Iso), None);
    assert_eq!(parse_date("not a date", DateFormat::Iso), None);
    assert_eq!(parse_date("", DateFormat::Iso), None);
}

#[test]
fn parse_month_day_year() {
    assert_eq!(parse_date("01/02/2024", DateFormat::MonthDayYear), Some(d(2024, 1, 2)));
    assert_eq!(parse_date("12/31/2023", DateFormat::MonthDayYear), Some(d(2023, 12, 31)));
    assert_eq!(parse_date("2024-01-02", DateFormat::MonthDayYear), None);
}

#[test]
fn parse_year_month_day() {
    assert_eq!(parse_date("2024/01/02", DateFormat::YearMonthDay), Some(d(2024, 1, 2)));
    assert_eq!(parse_date("01/02/2024", DateFormat::YearMonthDay), None);
}

#[test]
fn parse_any_tries_formats_in_order() {
    assert_eq!(parse_date("2024-01-02", DateFormat::Any), Some(d(2024, 1, 2)));
    assert_eq!(parse_date("01/02/2024", DateFormat::Any), Some(d(2024, 1, 2)));
    assert_eq!(parse_date("2024/01/02", DateFormat::Any), Some(d(2024, 1, 2)));
    assert_eq!(parse_date("02.01.2024", DateFormat::Any), None);
}

#[test]
fn iso_string_round_trips() {
    let x = d(2024, 1, 2);
    let s = x.to_iso_string();
    assert_eq!(s, "2024-01-02");
    assert_eq!(parse_date(&s, DateFormat::Iso), Some(x));
    assert_eq!(d(999, 12, 5).to_iso_string(), "0999-12-05");
}
