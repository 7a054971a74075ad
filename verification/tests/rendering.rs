use diurn_cli::date::Date;
use diurn_cli::load::{LoadSummary, PublishedSource};
use diurn_cli::output::{banner, Format, Provenance};
use diurn_cli::render::{
    diff_cells, diff_lines, diff_stream, issues_table, kind_name, record_detail_lines, records_table,
    severity_str, summary, summary_lines, ChangedView, DiffView, FieldChangeView, IssueView, RecordView,
    Severity,
};
use diurn_cli::table::Table;
use diurn_cli::text::{clip, decimal, trimmed, trimmed_end};

fn date(y: i16, m: i8, d: i8) -> Date {
    Date::new(y, m, d).expect("a valid date")
}

#[test]
fn clip_leaves_short_strings_alone() {
    assert_eq!(clip("NYSE", 10), "NYSE");
    assert_eq!(clip("NYSE", 4), "NYSE");
}

#[test]
fn clip_marks_truncation() {
    assert_eq!(clip("NEW YORK STOCK EXCHANGE", 10), "NEW YORK …");
    assert_eq!(clip("NEW YORK STOCK EXCHANGE", 10).chars().count(), 10);
}

/// Non-ASCII names must clip on character boundaries, not bytes.
#[test]
fn clip_handles_non_ascii() {
    let s = "ČESKOSLOVENSKÁ OBCHODNÍ BANKA";
    assert_eq!(clip(s, 8).chars().count(), 8);
    assert!(clip(s, 8).starts_with('Č'));
}

#[test]
fn clip_to_nothing_leaves_the_mark() {
    assert_eq!(clip("NYSE", 0), "…");
    assert_eq!(clip("NYSE", 1), "…");
    assert_eq!(clip("", 0), "");
}

#[test]
fn tables_align_columns_without_trailing_space() {
    let mut t = Table::new(&["MIC", "NAME", "CC"]);
    assert!(t.is_empty());
    t.push(vec!["XNYS".into(), "NEW YORK STOCK EXCHANGE, INC.".into(), "US".into()]);
    t.push(vec!["XLON".into(), "LSE".into(), "".into()]);
    assert!(!t.is_empty());
    let lines = t.lines();
    assert_eq!(
        lines,
        vec![
            "MIC   NAME                           CC",
            "----  -----------------------------  --",
            "XNYS  NEW YORK STOCK EXCHANGE, INC.  US",
            "XLON  LSE",
        ]
    );
    for l in &lines {
        assert_eq!(l.trim_end(), l);
    }
}

#[test]
fn trimming_matches_std() {
    for s in ["  a b \t\n", "\u{3000}x\u{2003}", "", "   ", "no-space"] {
        assert_eq!(trimmed_end(s), s.trim_end());
        assert_eq!(trimmed(s), s.trim());
    }
}

#[test]
fn decimals() {
    assert_eq!(decimal(0), "0");
    assert_eq!(decimal(2875), "2875");
    assert_eq!(decimal(u64::MAX), u64::MAX.to_string());
}

fn view(mic: &str, oper: &str, kind: &str, country: Option<&str>, status: &str, category: &str, pending: bool) -> RecordView {
    RecordView {
        mic: mic.into(),
        operating_mic: oper.into(),
        kind: kind.into(),
        kind_name: if kind == "OPRT" { "Operating".into() } else { "Segment".into() },
        market_name: format!("MARKET {mic}"),
        legal_entity_name: None,
        lei: None,
        category: category.into(),
        category_name: if category == "NSPD" { Some("Not Specified".into()) } else { None },
        acronym: None,
        country: country.map(String::from),
        city: Some("NEW YORK".into()),
        website: None,
        status: status.into(),
        pending,
        created: Some("2005-06-27".into()),
        last_updated: if pending { Some("2026-08-24".into()) } else { None },
        last_validated: None,
        expires: None,
        comments: None,
    }
}

#[test]
fn table_output_is_aligned_and_labelled() {
    let v = view("XNYS", "XNYS", "OPRT", Some("US"), "ACTIVE", "NSPD", false);
    let out = record_detail_lines(&v);
    assert!(out.contains(&"MIC               XNYS".to_string()));
    assert!(out.contains(&"Type              OPRT (Operating)".to_string()));
    assert!(out.contains(&"Category          NSPD (Not Specified)".to_string()));
    assert!(!out.iter().any(|l| l.starts_with("Pending")));
    assert!(!out.iter().any(|l| l.starts_with("Website")));
}

#[test]
fn pending_records_say_when_they_take_effect() {
    let v = view("ASPC", "INCC", "SGMT", Some("CA"), "ACTIVE", "ATSS", true);
    let out = record_detail_lines(&v);
    assert!(out.contains(&"Pending           yes — takes effect 2026-08-24".to_string()));
    assert!(out.contains(&"Category          ATSS (unrecognised)".to_string()));
}

#[test]
fn record_tables_mark_pending_and_missing_countries() {
    let views = vec![
        view("ASPC", "INCC", "SGMT", Some("CA"), "ACTIVE", "ATSS", true),
        view("XXXX", "XXXX", "OPRT", None, "EXPIRED", "OTHR", false),
    ];
    let out = records_table(&views);
    assert_eq!(out[0], "MIC   OPER  TYPE  CC  STATUS   CATEGORY  NAME");
    assert_eq!(out[2], "ASPC  INCC  SGMT  CA  ACTIVE*  ATSS      MARKET ASPC");
    assert_eq!(out[3], "XXXX  XXXX  OPRT  --  EXPIRED  OTHR      MARKET XXXX");
    assert_eq!(records_table(&Vec::new()), vec!["no matching records"]);
}

fn issue(severity: Severity, kind: &str, mic: Option<&str>, line: Option<u64>) -> IssueView {
    IssueView { severity, kind: kind.into(), mic: mic.map(String::from), line, message: format!("{kind} found") }
}

#[test]
fn kind_names_drop_the_payload() {
    assert_eq!(kind_name("FutureDatedRecord { effective: 2026-08-24 }"), "FutureDatedRecord");
    assert_eq!(kind_name("EncodingFallback"), "EncodingFallback");
    assert_eq!(kind_name("Wrapped(3)"), "Wrapped");
    assert_eq!(severity_str(Severity::Warning), "warning");
}

#[test]
fn issues_render_one_per_row() {
    let issues = vec![
        issue(Severity::Error, "DuplicateMic", Some("XAAA"), Some(3)),
        issue(Severity::Info, "FutureDatedRecord", None, None),
    ];
    let out = issues_table(&issues);
    assert_eq!(out[0], "SEVERITY  LINE  MIC   PROBLEM");
    assert_eq!(out[2], "error     3     XAAA  DuplicateMic found");
    assert_eq!(out[3], "info      --    --    FutureDatedRecord found");
    assert_eq!(issues_table(&Vec::new()), vec!["no issues"]);
}

#[test]
fn summaries_count_by_kind_in_order() {
    let issues = vec![
        issue(Severity::Warning, "SegmentPointsToSegment", Some("A"), None),
        issue(Severity::Info, "FutureDatedRecord", Some("B"), None),
        issue(Severity::Warning, "SegmentPointsToSegment", Some("C"), None),
        issue(Severity::Error, "DuplicateMic", Some("D"), Some(9)),
    ];
    let s = summary(date(2026, 8, 10), 2875, 35, &issues);
    assert_eq!(s.published, "2026-08-10");
    assert_eq!((s.errors, s.warnings, s.info, s.records, s.pending), (1, 2, 1, 2875, 35));
    let kinds: Vec<(&str, usize)> = s.by_kind.iter().map(|k| (k.kind.as_str(), k.count)).collect();
    assert_eq!(kinds, [("DuplicateMic", 1), ("FutureDatedRecord", 1), ("SegmentPointsToSegment", 2)]);
    let lines = summary_lines(&s);
    assert_eq!(lines[0], "vintage    2026-08-10");
    assert_eq!(lines[1], "records    2875");
    assert_eq!(lines[2], "pending    35");
    assert_eq!(lines[3], "issues     1 error, 2 warning, 1 info");
    assert_eq!(lines[4], "");
    assert_eq!(lines[5], "COUNT  SEVERITY  KIND");
    assert_eq!(lines[9], "2      warning   SegmentPointsToSegment");
}

#[test]
fn a_clean_summary_has_no_kind_table() {
    let s = summary(date(2026, 8, 10), 3, 0, &Vec::new());
    assert_eq!(summary_lines(&s).len(), 4);
}

fn xchi_diff() -> DiffView {
    DiffView {
        added: vec!["CRYP".into()],
        removed: vec!["ZTST".into()],
        changed: vec![ChangedView {
            mic: "XCHI".into(),
            changes: vec![
                FieldChangeView {
                    field: "market_name".into(),
                    old: Some("NYSE CHICAGO, INC.".into()),
                    new: Some("NYSE TEXAS, INC.".into()),
                },
                FieldChangeView { field: "website".into(), old: None, new: Some("WWW.NYSE.COM".into()) },
            ],
        }],
    }
}

#[test]
fn diffs_render_as_a_table() {
    let out = diff_lines(&xchi_diff());
    assert_eq!(out[0], "1 added, 1 removed, 1 changed");
    assert_eq!(out[1], "");
    assert_eq!(out[2], "CHANGE   MIC   FIELD        OLD                 NEW");
    assert_eq!(out[4], "added    CRYP");
    assert_eq!(out[5], "removed  ZTST");
    assert_eq!(out[6], "changed  XCHI  market_name  NYSE CHICAGO, INC.  NYSE TEXAS, INC.");
    assert_eq!(out[7], "changed  XCHI  website      --                  WWW.NYSE.COM");
    let empty = DiffView { added: vec![], removed: vec![], changed: vec![] };
    assert_eq!(diff_lines(&empty), vec!["no differences"]);
}

#[test]
fn diffs_as_records_and_rows() {
    let d = xchi_diff();
    let rows = diff_cells(&d, false);
    assert_eq!(rows[3], vec!["changed", "XCHI", "website", "", "WWW.NYSE.COM"]);
    let stream = diff_stream(&d);
    assert_eq!(stream.len(), 3);
    assert_eq!((stream[0].change.as_str(), stream[0].mic.as_str()), ("added", "CRYP"));
    assert_eq!(stream[2].fields.as_ref().map(|f| f.len()), Some(2));
}

#[test]
fn the_banner_names_the_vintage_unless_quiet() {
    let loaded = LoadSummary {
        published: date(2026, 8, 10),
        source: PublishedSource::InferredFromEffectiveDate,
        records: 2875,
        has_errors: false,
    };
    let p = Provenance::new("/d/mic.csv", &loaded);
    assert_eq!(
        banner(&p, false).unwrap(),
        "ISO 10383 vintage 2026-08-10 — 2875 records, /d/mic.csv (date inferred from file)"
    );
    assert_eq!(banner(&p, true), None);
}

#[test]
fn format_defaults_follow_the_terminal() {
    assert_eq!(Format::resolve(None, true), Format::Table);
    assert_eq!(Format::resolve(None, false), Format::Jsonl);
    assert_eq!(Format::resolve(Some(Format::Csv), true), Format::Csv);
}

#[test]
fn provenance_goes_to_stderr_only() {
    let loaded = LoadSummary {
        published: date(2026, 8, 10),
        source: PublishedSource::Given,
        records: 2875,
        has_errors: false,
    };
    let line = banner(&Provenance::new("ISO10383_MIC_2026-08-10.csv", &loaded), false).unwrap();
    assert!(line.contains("vintage 2026-08-10"));
    assert!(!line.contains('\n'));
}

#[test]
fn default_format_when_piped_is_ndjson() {
    assert_eq!(Format::resolve(None, false), Format::Jsonl);
}

#[test]
fn quiet_silences_the_banner() {
    let loaded = LoadSummary {
        published: date(2026, 8, 10),
        source: PublishedSource::LatestUpdateInFile,
        records: 1,
        has_errors: false,
    };
    assert_eq!(banner(&Provenance::new("x.csv", &loaded), true), None);
}

#[test]
fn load_summarises_a_clean_vintage() {
    let s = summary(date(2026, 8, 10), 2875, 35, &Vec::new());
    assert_eq!(s.records, 2875);
    assert_eq!(s.errors, 0);
    assert_eq!(s.pending, 35);
    assert_eq!(s.published, "2026-08-10");
    assert_eq!(diurn_cli::commands::load_exit_code(false), 0);
}
