use diurn_cli::date::Date;
use diurn_cli::load::{load_file, PublishedSource};
use diurn_cli::registry::{
    diff_files, load_summary, merge_issues, named_issues, pending_count, validate_file, UnreadFile,
};
use diurn_cli::render::{IssueView, Severity};
use diurn_cli::source::{load_path, LoadPlan};

const HEADER: &str = "\"MIC\",\"OPERATING MIC\",\"OPRT/SGMT\",\"MARKET NAME-INSTITUTION DESCRIPTION\",\"LEGAL ENTITY NAME\",\"LEI\",\"MARKET CATEGORY CODE\",\"ACRONYM\",\"ISO COUNTRY CODE (ISO 3166)\",\"CITY\",\"WEBSITE\",\"STATUS\",\"CREATION DATE\",\"LAST UPDATE DATE\",\"LAST VALIDATION DATE\",\"EXPIRY DATE\",\"COMMENTS\"";

fn date(y: i16, m: i8, d: i8) -> Date {
    Date::new(y, m, d).expect("a valid date")
}

fn csv(rows: &[&str]) -> Vec<u8> {
    let mut s = String::from(HEADER);
    for r in rows {
        s.push('\n');
        s.push_str(r);
    }
    s.push('\n');
    s.into_bytes()
}

const XNYS: &str = "\"XNYS\",\"XNYS\",\"OPRT\",\"NEW YORK STOCK EXCHANGE, INC.\",,,\"NSPD\",\"NYSE\",\"US\",\"NEW YORK\",\"WWW.NYSE.COM\",\"ACTIVE\",\"20050527\",\"20050527\",,,";
const ARCX: &str = "\"ARCX\",\"XNYS\",\"SGMT\",\"NYSE ARCA\",,,\"RMKT\",,\"US\",\"NEW YORK\",,\"UPDATED\",\"20060101\",\"20260824\",,,";
const XCHI: &str = "\"XCHI\",\"XCHI\",\"OPRT\",\"NYSE CHICAGO, INC.\",,,\"RMKT\",,\"US\",\"CHICAGO\",,\"ACTIVE\",\"20050527\",\"20050527\",,,";
const XCHI_TX: &str = "\"XCHI\",\"XCHI\",\"OPRT\",\"NYSE TEXAS, INC.\",,,\"RMKT\",,\"US\",\"DALLAS\",,\"ACTIVE\",\"20050527\",\"20050527\",,,";

fn plan(published: Option<Date>) -> LoadPlan {
    LoadPlan { path: "/d/mic.csv".to_string(), published }
}

#[test]
fn a_file_reads_into_the_records_the_commands_see() {
    let bytes = csv(&[XNYS, ARCX]);
    let l = load_file(&plan(Some(date(2026, 8, 10))), &bytes).unwrap();
    assert_eq!(l.registry.published, date(2026, 8, 10));
    assert_eq!(l.registry.source, PublishedSource::Given);
    let mics: Vec<&str> = l.registry.records.iter().map(|r| r.mic.as_str()).collect();
    assert_eq!(mics, ["XNYS", "ARCX"]);
    let xnys = &l.registry.records[0];
    assert_eq!(xnys.kind_name, "Operating");
    assert_eq!(xnys.category_name.as_deref(), Some("Not Specified"));
    assert_eq!(xnys.acronym.as_deref(), Some("NYSE"));
    assert_eq!(xnys.created.as_deref(), Some("2005-05-27"));
    assert!(!xnys.pending);
    let arcx = &l.registry.records[1];
    assert_eq!(arcx.operating_mic, "XNYS");
    assert!(arcx.pending, "a change effective after the vintage is pending");
    assert_eq!(arcx.last_updated.as_deref(), Some("2026-08-24"));
    assert_eq!(pending_count(&l.registry.records), 1);
    assert!(!l.has_errors);
}

#[test]
fn the_vintage_date_is_inferred_when_not_known() {
    let l = load_file(&plan(None), &csv(&[XNYS, ARCX])).unwrap();
    assert_eq!(l.registry.source, PublishedSource::InferredFromEffectiveDate);
    assert_eq!(l.registry.published, date(2026, 8, 10));
}

#[test]
fn a_file_that_is_not_a_registry_is_refused() {
    assert!(load_file(&plan(None), b"not,a,registry\n1,2,3\n").is_err());
}

#[test]
fn loaded_issues_are_counted_by_kind_name() {
    let bytes = csv(&[XNYS, ARCX, "\"XX\",\"XNYS\",\"SGMT\",\"BAD\",,,\"RMKT\",,\"US\",,,\"ACTIVE\",,,,,"]);
    let l = load_file(&plan(Some(date(2026, 8, 10))), &bytes).unwrap();
    assert!(l.has_errors);
    let named = named_issues(&l.issues);
    assert_eq!(named.len(), l.issues.len());
    assert!(named.iter().all(|i| !i.kind.contains(' ') && !i.kind.contains('{')));
    assert!(named.iter().any(|i| i.kind == "InvalidMicFormat"));
    let s = load_summary(&l);
    assert_eq!(s.records, 2);
    assert_eq!(s.pending, 1);
    assert!(s.errors >= 1);
    assert_eq!(s.errors + s.warnings + s.info, named.len());
}

fn issue(kind: &str, line: Option<u64>) -> IssueView {
    IssueView { severity: Severity::Warning, kind: kind.into(), mic: Some("XAAA".into()), line, message: kind.into() }
}

#[test]
fn validate_lists_the_load_first_then_what_is_new() {
    let first = vec![issue("A", Some(2)), issue("B", None)];
    let more = vec![issue("B", None), issue("C", None), issue("A", None), issue("C", None)];
    let all = merge_issues(&first, &more);
    let kinds: Vec<(&str, Option<u64>)> = all.iter().map(|i| (i.kind.as_str(), i.line)).collect();
    assert_eq!(kinds, [("A", Some(2)), ("B", None), ("C", None), ("A", None)]);
}

#[test]
fn validate_reports_issues_without_failing_on_a_clean_file() {
    let seg_of_seg = "\"XSSS\",\"ARCX\",\"SGMT\",\"SEGMENT OF A SEGMENT\",,,\"RMKT\",,\"US\",,,\"ACTIVE\",,,,,";
    let bytes = csv(&[XNYS, ARCX, seg_of_seg]);
    let p = plan(Some(date(2026, 8, 10)));
    let l = load_file(&p, &bytes).unwrap();
    let (v, all) = validate_file(&p, &bytes).unwrap();
    assert!(!v.has_errors);
    assert!(all.len() >= l.issues.len());
    assert!(all.iter().all(|i| i.severity != Severity::Error));
    assert!(all.iter().any(|i| i.kind == "SegmentPointsToSegment"));
    assert!(all.iter().any(|i| i.kind == "FutureDatedRecord"));
}

#[test]
fn diff_reports_the_xchi_rename() {
    let old = csv(&[XNYS, XCHI, "\"ZTST\",\"ZTST\",\"OPRT\",\"TEST\",,,\"RMKT\",,\"US\",,,\"ACTIVE\",,,,,"]);
    let new = csv(&[XNYS, XCHI_TX, "\"CRYP\",\"CRYP\",\"OPRT\",\"CRYPTO\",,,\"CASP\",,\"US\",,,\"ACTIVE\",,,,,"]);
    let (op, np) = (load_path("ISO10383_MIC_2026-07-13.csv", None, false), load_path("ISO10383_MIC_2026-08-10.csv", None, false));
    let (a, b, d) = diff_files(&op, &old, &np, &new).unwrap();
    assert_eq!(a.registry.published, date(2026, 7, 13));
    assert_eq!(b.registry.published, date(2026, 8, 10));
    assert_eq!(d.added, ["CRYP"]);
    assert_eq!(d.removed, ["ZTST"]);
    assert_eq!(d.changed.len(), 1);
    assert_eq!(d.changed[0].mic, "XCHI");
    let name = d.changed[0].changes.iter().find(|c| c.field == "market_name").unwrap();
    assert_eq!(name.old.as_deref(), Some("NYSE CHICAGO, INC."));
    assert_eq!(name.new.as_deref(), Some("NYSE TEXAS, INC."));
    assert!(d.changed[0].changes.iter().any(|c| c.field == "city"));
}

#[test]
fn diff_of_a_file_against_itself_is_empty() {
    let bytes = csv(&[XNYS, ARCX, XCHI]);
    let p = plan(Some(date(2026, 8, 10)));
    let (_, _, d) = diff_files(&p, &bytes, &p, &bytes).unwrap();
    assert!(d.added.is_empty() && d.removed.is_empty() && d.changed.is_empty());
}

#[test]
fn diff_names_the_file_it_could_not_read() {
    let good = csv(&[XNYS]);
    let p = plan(None);
    assert!(matches!(diff_files(&p, b"junk", &p, &good), Err(UnreadFile::Old(_))));
    assert!(matches!(diff_files(&p, &good, &p, b"junk"), Err(UnreadFile::New(_))));
}

#[test]
fn a_plan_s_date_is_the_date_read_with() {
    let bytes = csv(&[XNYS, ARCX]);
    let given = load_file(&plan(Some(date(2026, 7, 13))), &bytes).unwrap();
    assert_eq!(given.registry.published, date(2026, 7, 13));
    assert_eq!(given.registry.source, PublishedSource::Given);
    let inferred = load_file(&plan(None), &bytes).unwrap();
    assert_ne!(inferred.registry.source, PublishedSource::Given);
}
