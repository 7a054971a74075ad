use diurn_cli::commands::{
    cal, detail_with_segments_lines, diff_notes, list, list_note, load_exit_code, lookup, mic_argument,
    no_vintages_note, opt_date, parse_filters, record_and_segments, segments, vintage_views, vintages_footnote, vintages_table,
    ListError, ListFilters, RegistryView, EXIT_LOAD_ERRORS, EXIT_OK, EXIT_USAGE,
};
use diurn_cli::date::Date;
use diurn_cli::load::PublishedSource;
use diurn_cli::render::RecordView;
use diurn_cli::source::Vintage;

fn date(y: i16, m: i8, d: i8) -> Date {
    Date::new(y, m, d).expect("a valid date")
}

fn view(mic: &str, oper: &str, kind: &str, country: &str, status: &str, category: &str, pending: bool) -> RecordView {
    RecordView {
        mic: mic.into(),
        operating_mic: oper.into(),
        kind: kind.into(),
        kind_name: if kind == "OPRT" { "Operating".into() } else { "Segment".into() },
        market_name: format!("MARKET {mic}"),
        legal_entity_name: None,
        lei: None,
        category: category.into(),
        category_name: match category {
            "RMKT" => Some("Regulated Market".into()),
            "MLTF" => Some("Multilateral Trading Facility".into()),
            "NSPD" => Some("Not Specified".into()),
            "TRFS" => Some("Trade Reporting Facility".into()),
            _ => None,
        },
        acronym: None,
        country: Some(country.into()),
        city: None,
        website: None,
        status: status.into(),
        pending,
        created: None,
        last_updated: None,
        last_validated: None,
        expires: None,
        comments: None,
    }
}

fn registry() -> RegistryView {
    RegistryView {
        records: vec![
            view("XTKS", "XJPX", "SGMT", "JP", "ACTIVE", "RMKT", false),
            view("XNYS", "XNYS", "OPRT", "US", "ACTIVE", "RMKT", false),
            view("ARCX", "XNYS", "SGMT", "US", "ACTIVE", "MLTF", false),
            view("XJPX", "XJPX", "OPRT", "JP", "ACTIVE", "NSPD", false),
            view("XOSE", "XJPX", "SGMT", "JP", "UPDATED", "RMKT", true),
            view("XCHI", "XCHI", "OPRT", "US", "EXPIRED", "TRFS", false),
            view("XNAS", "XNAS", "OPRT", "US", "ACTIVE", "RMKT", true),
        ],
        published: date(2026, 8, 10),
        source: PublishedSource::Given,
    }
}

fn filters() -> ListFilters {
    ListFilters { country: None, status: None, category: None, operating: false, pending: false, limit: None }
}

fn mics(records: &[RecordView]) -> Vec<&str> {
    records.iter().map(|r| r.mic.as_str()).collect()
}

#[test]
fn list_filters_by_country_and_status() {
    let f = ListFilters { country: Some("jp".into()), status: Some(" active ".into()), ..filters() };
    let l = list(&registry(), &f).unwrap();
    assert_eq!(mics(&l.records), ["XJPX", "XTKS"]);
    assert!(l.records.iter().all(|r| r.country.as_deref() == Some("JP") && r.status == "ACTIVE"));
}

#[test]
fn list_filters_by_category_code_or_name() {
    let by_code = list(&registry(), &ListFilters { category: Some("TRFS".into()), ..filters() }).unwrap();
    let by_name = list(&registry(), &ListFilters { category: Some("Trade Reporting Facility".into()), ..filters() }).unwrap();
    assert_eq!(mics(&by_code.records), ["XCHI"]);
    assert_eq!(by_code, by_name);
}

#[test]
fn list_operating_excludes_segments() {
    let l = list(&registry(), &ListFilters { country: Some("US".into()), operating: true, ..filters() }).unwrap();
    assert_eq!(mics(&l.records), ["XCHI", "XNAS", "XNYS"]);
    assert!(l.records.iter().all(|r| r.kind == "OPRT"));
}

#[test]
fn list_pending_finds_the_records_not_yet_in_force() {
    let l = list(&registry(), &ListFilters { pending: true, ..filters() }).unwrap();
    assert_eq!(mics(&l.records), ["XNAS", "XOSE"]);
}

#[test]
fn list_caps_and_says_how_many_it_hid() {
    let l = list(&registry(), &ListFilters { limit: Some(2), ..filters() }).unwrap();
    assert_eq!(mics(&l.records), ["ARCX", "XCHI"]);
    assert_eq!(l.total, 7);
    assert_eq!(list_note(&l).unwrap(), "showing 2 of 7 matches");
    let all = list(&registry(), &filters()).unwrap();
    assert_eq!(list_note(&all), None);
}

#[test]
fn bad_filters_are_reported_in_order() {
    let f = ListFilters { country: Some("NOTACOUNTRY".into()), status: Some("nonsense".into()), ..filters() };
    assert_eq!(parse_filters(&f), Err(ListError::Country("NOTACOUNTRY".into())));
    let f = ListFilters { status: Some("pending".into()), ..filters() };
    assert_eq!(parse_filters(&f), Err(ListError::Status("pending".into())));
    let f = ListFilters { category: Some("Nonsense Market".into()), ..filters() };
    assert_eq!(parse_filters(&f), Err(ListError::Category("Nonsense Market".into())));
    let sel = parse_filters(&ListFilters { category: Some("regulated market".into()), ..filters() }).unwrap();
    assert_eq!(sel.category.as_deref(), Some("RMKT"));
}

#[test]
fn segments_of_an_operating_mic() {
    let segs = segments(&registry(), "XJPX").unwrap();
    assert_eq!(mics(&segs), ["XTKS", "XOSE"]);
    assert!(segs.iter().all(|s| s.operating_mic == "XJPX"));
    assert!(segments(&registry(), "ZZZZ").is_err());
}

#[test]
fn get_with_segments_lists_the_record_first() {
    let all = record_and_segments(&registry(), "XNYS").unwrap();
    assert_eq!(mics(&all), ["XNYS", "ARCX"]);
    let r = lookup(&registry(), "XNYS").unwrap();
    let segs: Vec<_> = all[1..].iter().map(|v| v.duplicate()).collect();
    let lines = detail_with_segments_lines(&r, &segs);
    assert!(lines.contains(&"1 segment(s):".to_string()));
    let lone = lookup(&registry(), "XCHI").unwrap();
    let lines = detail_with_segments_lines(&lone, &Vec::new());
    assert_eq!(lines.last().unwrap(), "no segments");
    assert_eq!(lookup(&registry(), "ZZZZ").unwrap_err().code, "ZZZZ");
}

#[test]
fn mic_arguments_are_normalised_or_refused() {
    assert_eq!(mic_argument("xnys").unwrap(), "XNYS");
    assert_eq!(mic_argument("TOOLONG").unwrap_err().given, "TOOLONG");
    assert!(mic_argument("XN-S").is_err());
}

#[test]
fn cal_is_reserved_and_says_so() {
    let (lines, code) = cal(false);
    assert_eq!(code, EXIT_USAGE);
    assert!(lines[0].contains("DIURN_API_KEY"));
    assert!(lines[0].contains("diurn.io"));
    assert!(lines.iter().any(|l| l.starts_with("diurn cal status <id>")));
    assert!(lines.last().unwrap().contains("diurn mic --help"));
}

#[test]
fn diff_notices_reversed_arguments() {
    let notes = diff_notes("new.csv", date(2026, 8, 10), "old.csv", date(2026, 7, 13));
    assert_eq!(notes[0], "new.csv (2026-08-10) -> old.csv (2026-07-13)");
    assert!(notes[1].contains("arguments may be swapped"));
    assert_eq!(diff_notes("a", date(2026, 7, 13), "b", date(2026, 8, 10)).len(), 1);
}

#[test]
fn load_errors_are_two() {
    assert_eq!(load_exit_code(true), EXIT_LOAD_ERRORS);
    assert_eq!(load_exit_code(false), EXIT_OK);
}

#[test]
fn published_flags_are_dates() {
    assert_eq!(opt_date(None).unwrap(), None);
    assert_eq!(opt_date(Some("2026-08-10")).unwrap(), Some(date(2026, 8, 10)));
    assert!(opt_date(Some("08/10/2026")).is_err());
}

#[test]
fn vintages_lists_what_is_available_and_marks_the_selection() {
    let found = vec![
        Vintage { path: "/d/ISO10383_MIC_2026-08-10.csv".into(), published: Some(date(2026, 8, 10)), modified: None, bytes: 587384 },
        Vintage { path: "/d/ISO10383_MIC_2026-06-08.csv".into(), published: Some(date(2026, 6, 8)), modified: None, bytes: 2048 },
        Vintage { path: "/d/export.csv".into(), published: None, modified: None, bytes: 10 },
    ];
    let views = vintage_views(&found);
    assert!(views[0].selected && !views[1].selected && !views[2].selected);
    assert_eq!(views[0].published.as_deref(), Some("2026-08-10"));
    let lines = vintages_table(&views, false);
    assert_eq!(lines[0], "   PUBLISHED   SIZE    FILE");
    assert_eq!(lines[2], "*  2026-08-10  573 KB  ISO10383_MIC_2026-08-10.csv");
    assert_eq!(lines[4], "   unknown     0 KB    export.csv");
    assert_eq!(vintages_footnote(3), "\n* used when no --path is given; the newest publication date wins");
    assert_eq!(vintages_footnote(1), "\n* used when no --path is given");
}

#[test]
fn get_with_segments_emits_valid_json() {
    let arr = record_and_segments(&registry(), "XJPX").unwrap();
    assert!(arr.len() > 1, "XJPX has segments");
    assert_eq!(arr[0].mic, "XJPX");
    assert_eq!(arr[0].kind, "OPRT");
    assert_eq!(arr[0].kind_name, "Operating");
    assert_eq!(arr[0].category_name.as_deref(), Some("Not Specified"));
    assert!(arr[1..].iter().all(|r| r.kind == "SGMT"));
}

#[test]
fn vintages_on_an_empty_directory_is_not_an_error() {
    assert!(vintage_views(&Vec::new()).is_empty());
    let note = no_vintages_note("/d/empty");
    assert!(note.contains("diurn mic fetch"));
    assert_eq!(note, "no registry files in /d/empty\nRun `diurn mic fetch` to download one.");
}

#[test]
fn category_codes_are_read_in_any_case() {
    let sel = parse_filters(&ListFilters { category: Some("rmkt".into()), ..filters() }).unwrap();
    assert_eq!(sel.category.as_deref(), Some("RMKT"));
    let sel = parse_filters(&ListFilters { category: Some("zz99".into()), ..filters() }).unwrap();
    assert_eq!(sel.category.as_deref(), Some("ZZ99"));
    let sel = parse_filters(&ListFilters { category: Some("  not specified ".into()), ..filters() }).unwrap();
    assert_eq!(sel.category.as_deref(), Some("NSPD"));
}

#[test]
fn windows_paths_show_their_file_name() {
    let found = vec![Vintage {
        path: "C:\\Users\\u\\AppData\\Roaming\\diurn\\ISO10383_MIC_2026-08-10.csv".into(),
        published: Some(date(2026, 8, 10)),
        modified: None,
        bytes: 2048,
    }];
    let views = vintage_views(&found);
    let lines = vintages_table(&views, true);
    assert!(lines[2].ends_with("  ISO10383_MIC_2026-08-10.csv"), "{lines:?}");
    assert!(!lines[2].contains("Roaming"));
    let unix = vintages_table(&views, false);
    assert!(unix[2].contains("Roaming"), "a backslash is no separator on Unix");
}
