use diurn_cli::date::Date;
use diurn_cli::fetch::{
    check_body, check_status, fetch_destination, parse_downloaded, resolve_published, settle_published,
    DownloadProblem, FetchError, Resolution, STALE_AFTER_DAYS,
};
use diurn_cli::source::published_from_filename;
use diurn_cli::load::{PublicationChoice, PublishedSource};

fn date(y: i16, m: i8, d: i8) -> Date {
    Date::new(y, m, d).expect("a valid date")
}

const HEADER: &str = "\"MIC\",\"OPERATING MIC\",\"OPRT/SGMT\",\"MARKET NAME-INSTITUTION DESCRIPTION\",\"LEGAL ENTITY NAME\",\"LEI\",\"MARKET CATEGORY CODE\",\"ACRONYM\",\"ISO COUNTRY CODE (ISO 3166)\",\"CITY\",\"WEBSITE\",\"STATUS\",\"CREATION DATE\",\"LAST UPDATE DATE\",\"LAST VALIDATION DATE\",\"EXPIRY DATE\",\"COMMENTS\"";

fn csv_with_last_update(d: &str) -> Vec<u8> {
    format!(
        "{HEADER}\n\"XAAA\",\"XAAA\",\"OPRT\",\"A\",,,\"RMKT\",,\"US\",\"NY\",,\"UPDATED\",,\"{d}\",,,\n"
    )
    .into_bytes()
}

#[test]
fn explicit_date_wins() {
    let bytes = csv_with_last_update("20260824");
    let (d, r) = resolve_published(&bytes, Some(date(2001, 1, 1)), date(2026, 8, 13)).unwrap();
    assert_eq!(d, date(2001, 1, 1));
    assert!(matches!(r, Resolution::Explicit));
}

#[test]
fn a_current_effective_date_is_accepted() {
    let bytes = csv_with_last_update("20260824");
    let (d, r) = resolve_published(&bytes, None, date(2026, 8, 13)).unwrap();
    assert_eq!(d, date(2026, 8, 10));
    assert!(matches!(r, Resolution::FromFile));
}

/// A fourth-Monday date left over from an earlier cycle: only a clock can
/// reject it.
#[test]
fn a_stale_effective_date_is_rejected() {
    let bytes = csv_with_last_update("20260824");
    let today = date(2027, 2, 3);
    let (d, r) = resolve_published(&bytes, None, today).unwrap();
    assert!(matches!(r, Resolution::ScheduledFallback { .. }));
    assert_eq!(d, diurn_cli::date::second_monday_of_month(today).unwrap());
    assert_eq!(d, date(2027, 2, 8));
}

#[test]
fn no_effective_date_falls_back_to_the_schedule() {
    // A Tuesday, so not readable as an effective date.
    let bytes = csv_with_last_update("20260616");
    let today = date(2026, 6, 20);
    let (d, r) = resolve_published(&bytes, None, today).unwrap();
    assert!(matches!(r, Resolution::Scheduled));
    assert_eq!(d, date(2026, 6, 8));
}

#[test]
fn resolutions_describe_themselves() {
    let d = date(2026, 8, 10);
    assert!(Resolution::Explicit.describe(d).contains("--published"));
    assert!(Resolution::FromFile.describe(d).contains("derived"));
    assert!(Resolution::Scheduled.describe(d).contains("assumed"));
    let s = Resolution::ScheduledFallback { rejected: date(2026, 2, 9) }.describe(d);
    assert!(s.contains("2026-02-09") && s.contains("too old"));
}

#[test]
fn describe_writes_the_whole_line() {
    assert_eq!(
        Resolution::Explicit.describe(date(2026, 8, 10)),
        "published 2026-08-10 (from --published)"
    );
    assert_eq!(
        Resolution::ScheduledFallback { rejected: date(2026, 2, 9) }.describe(date(2026, 3, 9)),
        "published 2026-03-09 (assumed: second Monday; the file implied 2026-02-09, which is too old to be this month's vintage)"
    );
}

#[test]
fn staleness_boundary_is_five_weeks() {
    let inferred = date(2026, 8, 10);
    let at_limit = date(2026, 9, 14);
    assert_eq!(STALE_AFTER_DAYS, 35);
    let (d, r) = settle_published(inferred, PublishedSource::InferredFromEffectiveDate, at_limit);
    assert_eq!((d, r), (inferred, Resolution::FromFile));
    let (d, r) = settle_published(inferred, PublishedSource::InferredFromEffectiveDate, date(2026, 9, 15));
    assert_eq!(d, date(2026, 9, 14));
    assert_eq!(r, Resolution::ScheduledFallback { rejected: inferred });
    let (d, r) = settle_published(inferred, PublishedSource::LatestUpdateInFile, date(2026, 8, 1));
    assert_eq!((d, r), (date(2026, 8, 10), Resolution::Scheduled));
}

#[test]
fn a_known_date_is_kept_by_the_loader() {
    let bytes = csv_with_last_update("20260824");
    let s = parse_downloaded(&bytes, PublicationChoice::Known(date(2026, 8, 10))).unwrap();
    assert_eq!(s.published, date(2026, 8, 10));
    assert_eq!(s.source, PublishedSource::Given);
    assert_eq!(s.records, 1);
    assert!(!s.has_errors);
}

#[test]
fn bytes_that_are_not_a_registry_are_refused() {
    let r = parse_downloaded(b"not,a,registry\n1,2,3\n", PublicationChoice::Infer);
    assert!(matches!(r, Err(FetchError::NotMicCsv { .. })));
    assert!(resolve_published(b"not,a,registry\n1,2,3\n", None, date(2026, 8, 13)).is_err());
}

#[test]
fn download_checks() {
    assert_eq!(check_status(200), Ok(()));
    assert_eq!(check_status(299), Ok(()));
    assert_eq!(check_status(404), Err(DownloadProblem::HttpStatus(404)));
    assert_eq!(check_status(301), Err(DownloadProblem::HttpStatus(301)));
    assert_eq!(check_body(b"x"), Ok(()));
    assert_eq!(check_body(b""), Err(DownloadProblem::EmptyBody));
}

#[test]
fn downloads_land_where_later_commands_look() {
    let d = date(2026, 8, 10);
    assert_eq!(
        fetch_destination(None, false, Some("/home/u/.local/share/diurn"), d, false).as_deref(),
        Some("/home/u/.local/share/diurn/ISO10383_MIC_2026-08-10.csv")
    );
    assert_eq!(fetch_destination(Some("/tmp/x.csv"), false, None, d, false).as_deref(), Some("/tmp/x.csv"));
    assert_eq!(
        fetch_destination(Some("/tmp/out/"), true, None, d, false).as_deref(),
        Some("/tmp/out/ISO10383_MIC_2026-08-10.csv")
    );
    assert_eq!(
        fetch_destination(None, false, Some("C:\\Users\\u\\AppData\\Roaming\\diurn"), d, true).as_deref(),
        Some("C:\\Users\\u\\AppData\\Roaming\\diurn\\ISO10383_MIC_2026-08-10.csv")
    );
    assert_eq!(fetch_destination(None, false, None, d, false), None);
    let path = fetch_destination(None, false, Some("/d"), d, false).unwrap();
    assert_eq!(published_from_filename(&path, false), Some(d));
}
