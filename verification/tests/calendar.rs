use diurn_cli::date::{days_since, parse_date, second_monday_of_month, Date};
use diurn_cli::fetch::filename;
use diurn_cli::source::published_from_filename;

fn date(y: i16, m: i8, d: i8) -> Date {
    Date::new(y, m, d).expect("a valid date")
}

fn jiff_of(d: Date) -> jiff::civil::Date {
    jiff::civil::date(d.year, d.month, d.day)
}

#[test]
fn second_monday_is_correct_across_a_year() {
    // Known values: August 2026 Mondays are 3, 10, 17, 24, 31.
    assert_eq!(second_monday_of_month(date(2026, 8, 1)).unwrap(), date(2026, 8, 10));
    // A month starting on a Monday: June 2026 Mondays are 1, 8, 15, 22, 29.
    assert_eq!(second_monday_of_month(date(2026, 6, 30)).unwrap(), date(2026, 6, 8));
    // A month starting on a Sunday: February 2026 begins on a Sunday.
    assert_eq!(second_monday_of_month(date(2026, 2, 5)).unwrap(), date(2026, 2, 9));
}

/// Every month must have one, and it must land on a Monday in the second week.
#[test]
fn second_monday_holds_for_every_month_this_decade() {
    for year in 2024..=2035 {
        for month in 1..=12 {
            let d = second_monday_of_month(date(year, month, 1)).unwrap();
            assert_eq!(jiff_of(d).weekday(), jiff::civil::Weekday::Monday);
            assert_eq!(d.month, month);
            assert!((8..=14).contains(&d.day), "{d:?} is not the second Monday");
        }
    }
}

#[test]
fn reads_the_date_out_of_a_conventional_filename() {
    let p = "/tmp/ISO10383_MIC_2026-08-10.csv";
    assert_eq!(published_from_filename(p, false), Some(date(2026, 8, 10)));
}

#[test]
fn ignores_filenames_that_do_not_carry_one() {
    for name in ["mic.csv", "ISO10383_MIC.csv", "ISO10383_MIC_2026-08.csv"] {
        assert_eq!(published_from_filename(name, false), None, "{name}");
    }
}

#[test]
fn filename_follows_the_ingest_convention() {
    assert_eq!(filename(date(2026, 8, 10)), "ISO10383_MIC_2026-08-10.csv");
    // ...and round-trips back through the parser.
    let p = filename(date(2026, 8, 10));
    assert_eq!(published_from_filename(&p, false), Some(date(2026, 8, 10)));
}

#[test]
fn date_construction_follows_the_calendar() {
    assert!(Date::new(2024, 2, 29).is_some());
    assert!(Date::new(2023, 2, 29).is_none());
    assert!(Date::new(2026, 13, 1).is_none());
    assert!(Date::new(2026, 4, 31).is_none());
    assert!(Date::new(10000, 1, 1).is_none());
}

#[test]
fn dates_print_as_jiff_prints_them() {
    assert_eq!(date(2026, 8, 10).to_text(), "2026-08-10");
    assert_eq!(date(7, 1, 2).to_text(), "0007-01-02");
    assert_eq!(date(-2024, 3, 10).to_text(), "-002024-03-10");
}

#[test]
fn weekdays_count_from_monday() {
    assert_eq!(date(2026, 8, 10).weekday_from_monday(), 0);
    assert_eq!(date(2026, 2, 1).weekday_from_monday(), 6);
    assert_eq!(date(1970, 1, 1).weekday_from_monday(), 3);
}

#[test]
fn days_between_dates() {
    assert_eq!(days_since(&date(2019, 1, 31), &date(2006, 8, 24)), 4543);
    assert_eq!(days_since(&date(2026, 8, 10), &date(2026, 8, 24)), -14);
}

#[test]
fn parse_date_reports_what_it_could_not_read() {
    assert_eq!(parse_date("2026-08-10").unwrap(), date(2026, 8, 10));
    match parse_date("tomorrow") {
        Err(diurn_cli::date::DateError::NotADate(t)) => assert_eq!(t, "tomorrow"),
        other => panic!("unexpected {other:?}"),
    }
}

#[test]
fn is_before_orders_chronologically() {
    assert!(date(2026, 7, 13).is_before(&date(2026, 8, 10)));
    assert!(!date(2026, 8, 10).is_before(&date(2026, 8, 10)));
    assert!(date(2025, 12, 31).is_before(&date(2026, 1, 1)));
}

#[test]
fn every_representable_date_survives_the_filename() {
    for d in [date(-9999, 1, 1), date(-1, 12, 31), date(0, 2, 29), date(9999, 12, 31)] {
        let name = filename(d);
        assert_eq!(published_from_filename(&name, false), Some(d), "{name}");
        assert_eq!(published_from_filename(&format!("/d/x/{name}"), false), Some(d), "{name}");
    }
    assert_eq!(filename(date(-1, 12, 31)), "ISO10383_MIC_-000001-12-31.csv");
}
