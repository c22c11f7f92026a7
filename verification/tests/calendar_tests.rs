use abcy_data::calendar::CalendarDate;
use chrono::{Datelike, NaiveDate};

fn date(year: i32, month: u32, day: u32) -> CalendarDate {
    let d = NaiveDate::from_ymd_opt(year, month, day).unwrap();
    CalendarDate {
        year,
        month,
        day,
        iso_year: d.iso_week().year(),
        iso_week: d.iso_week().week(),
        day_number: d.num_days_from_ce(),
    }
}

#[test]
fn parse_reads_the_utc_date() {
    let d = CalendarDate::parse("2024-01-01T00:00:00Z").unwrap();
    assert_eq!(d, date(2024, 1, 1));
    assert_eq!((d.iso_year, d.iso_week), (2024, 1));
    assert_eq!(d.day_number, 738886);
}

#[test]
fn parse_converts_offsets_to_utc() {
    // 23:30 at UTC-8 is the next day in UTC
    let d = CalendarDate::parse("1996-12-19T23:30:00-08:00").unwrap();
    assert_eq!((d.year, d.month, d.day), (1996, 12, 20));
    // 00:30 at UTC+2 is the day before in UTC
    let e = CalendarDate::parse("2024-03-01T00:30:00+02:00").unwrap();
    assert_eq!((e.year, e.month, e.day), (2024, 2, 29));
}

#[test]
fn parse_rejects_what_is_no_date_and_time() {
    assert!(CalendarDate::parse("").is_none());
    assert!(CalendarDate::parse("2024-01-01").is_none());
    assert!(CalendarDate::parse("2024-13-01T00:00:00Z").is_none());
    assert!(CalendarDate::parse("2024-01-01T00:00:00").is_none());
    assert!(CalendarDate::parse("yesterday").is_none());
}

#[test]
fn iso_week_differs_from_the_year_around_new_year() {
    let d = CalendarDate::parse("2021-01-03T12:00:00Z").unwrap();
    assert_eq!((d.iso_year, d.iso_week), (2020, 53));
    let e = CalendarDate::parse("2024-12-30T12:00:00Z").unwrap();
    assert_eq!((e.iso_year, e.iso_week), (2025, 1));
}

#[test]
fn days_between_dates() {
    let a = date(2024, 3, 10);
    let b = date(2024, 2, 11);
    assert_eq!(a.days_since(&b), 28);
    assert_eq!(b.days_since(&a), -28);
    assert_eq!(a.days_since(&a), 0);
    let far = CalendarDate { day_number: i32::MIN, ..a };
    let near = CalendarDate { day_number: i32::MAX, ..a };
    assert_eq!(near.days_since(&far), i32::MAX as i64 - i32::MIN as i64);
}

#[test]
fn text_is_the_iso_date() {
    for (y, m, d) in [(2024, 1, 1), (2024, 12, 31), (1970, 1, 1), (999, 5, 9), (0, 1, 1), (9999, 12, 31)] {
        let expected = NaiveDate::from_ymd_opt(y, m, d).unwrap().to_string();
        assert_eq!(date(y, m, d).text(), expected);
    }
    assert_eq!(date(2024, 3, 7).text(), "2024-03-07");
}

#[test]
fn text_of_years_beyond_four_digits_has_a_sign() {
    for (y, m, d) in [(10000, 1, 1), (-1, 12, 31), (-44, 3, 15), (123456, 7, 8), (-123456, 7, 8)] {
        let expected = NaiveDate::from_ymd_opt(y, m, d).unwrap().to_string();
        assert_eq!(date(y, m, d).text(), expected);
    }
    assert_eq!(date(-1, 12, 31).text(), "-0001-12-31");
    assert_eq!(date(10000, 1, 1).text(), "+10000-01-01");
}
