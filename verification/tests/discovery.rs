use diurn_cli::date::Date;
use diurn_cli::source::{
    data_dir, fetch_url, has_csv_extension, is_snap_private, join_path, load, load_path, newest_first,
    no_registry_available, DataDir, Environment, NoDataDir, Platform, Vintage, DATA_DIR_ENV, ISO_URL,
};

fn date(y: i16, m: i8, d: i8) -> Date {
    Date::new(y, m, d).expect("a valid date")
}

fn env(
    data_dir_override: Option<&str>,
    home: Option<&str>,
    xdg: Option<&str>,
) -> Environment {
    Environment {
        data_dir_override: data_dir_override.map(String::from),
        snap_real_home: None,
        home: home.map(String::from),
        appdata: None,
        xdg_data_home: xdg.map(String::from),
    }
}

#[test]
fn data_dir_honours_the_override() {
    let d = data_dir(&env(Some("/tmp/diurn-test-dir"), Some("/home/someone"), None), Platform::Unix).unwrap();
    assert_eq!(d.path, "/tmp/diurn-test-dir");
    assert!(d.note.is_none());
}

/// An empty override must not silently become the current directory.
#[test]
fn empty_override_falls_through_to_the_platform_default() {
    let d = data_dir(&env(Some(""), Some("/home/someone"), None), Platform::Unix).unwrap();
    assert_ne!(d.path, "");
    assert!(d.path.ends_with("diurn"), "{d:?}");
}

#[test]
fn snap_private_paths_are_recognised() {
    assert!(is_snap_private("/home/ariza/snap/code/253/.local/share"));
    assert!(is_snap_private("/var/snap/foo/current"));
    assert!(!is_snap_private("/home/ariza/.local/share"));
    // "snapshot" is not "snap".
    assert!(!is_snap_private("/home/ariza/snapshots/data"));
}

#[test]
fn xdg_data_home_is_used_when_it_is_the_user_s_own() {
    let d = data_dir(&env(None, Some("/home/someone"), Some("/home/someone/.local/share")), Platform::Unix).unwrap();
    assert_eq!(d.path, "/home/someone/.local/share/diurn");
    assert!(d.note.is_none());
}

#[test]
fn a_snap_hijacked_xdg_data_home_is_declined_with_an_explanation() {
    let d = data_dir(
        &env(None, Some("/home/ariza"), Some("/home/ariza/snap/code/253/.local/share")),
        Platform::Unix,
    )
    .unwrap();
    assert!(!is_snap_private(&d.path), "must not land inside the snap tree: {d:?}");
    assert!(d.path.ends_with(".local/share/diurn"), "{d:?}");

    let note = d.note.expect("the override must be explained");
    assert!(note.contains("XDG_DATA_HOME"));
    assert!(note.contains("snap"));
    assert!(note.contains(DATA_DIR_ENV), "must offer a way out");
}

#[test]
fn explicit_override_beats_the_snap_heuristic() {
    let d = data_dir(
        &env(
            Some("/home/ariza/snap/code/253/diurn"),
            Some("/home/ariza"),
            Some("/home/ariza/snap/code/253/.local/share"),
        ),
        Platform::Unix,
    )
    .unwrap();
    assert_eq!(d.path, "/home/ariza/snap/code/253/diurn");
    assert!(d.note.is_none());
}

#[test]
fn platform_conventions() {
    let mut e = env(None, Some("/Users/someone"), None);
    assert_eq!(data_dir(&e, Platform::MacOs).unwrap().path, "/Users/someone/Library/Application Support/diurn");
    assert_eq!(data_dir(&e, Platform::Windows), Err(NoDataDir));
    e.appdata = Some("C:\\Users\\someone\\AppData\\Roaming".to_string());
    assert_eq!(data_dir(&e, Platform::Windows).unwrap().path, "C:\\Users\\someone\\AppData\\Roaming\\diurn");
    e.snap_real_home = Some("/home/real".to_string());
    assert_eq!(data_dir(&e, Platform::Unix).unwrap().path, "/home/real/.local/share/diurn");
    // A relative XDG_DATA_HOME is ignored, silently.
    let d = data_dir(&env(None, Some("/home/x"), Some("relative/dir")), Platform::Unix).unwrap();
    assert_eq!(d, DataDir { path: "/home/x/.local/share/diurn".to_string(), note: None });
    assert_eq!(data_dir(&env(None, None, None), Platform::Unix), Err(NoDataDir));
}

#[test]
fn joining_paths() {
    assert_eq!(join_path("/a/", "b", false), "/a/b");
    assert_eq!(join_path("/a", "b", false), "/a/b");
    assert_eq!(join_path("", "b", false), "b");
    assert_eq!(join_path("C:\\x", "b", true), "C:\\x\\b");
}

#[test]
fn the_download_url_can_be_overridden() {
    assert_eq!(fetch_url(None), ISO_URL);
    assert_eq!(fetch_url(Some("http://127.0.0.1:1/mic.csv")), "http://127.0.0.1:1/mic.csv");
}

fn vintage(path: &str, modified: Option<i64>) -> Vintage {
    Vintage { path: path.to_string(), published: diurn_cli::source::published_from_filename(path, false), modified, bytes: 1 }
}

/// Dated files outrank undated ones; later dates win.
#[test]
fn newest_vintage_sorts_first() {
    let found = vec![
        vintage("/d/ISO10383_MIC_2026-06-08.csv", Some(5)),
        vintage("/d/ISO10383_MIC_2026-08-10.csv", Some(1)),
        vintage("/d/ISO10383_MIC_2026-07-13.csv", Some(3)),
        vintage("/d/some-other-export.csv", Some(9)),
    ];
    let sorted = newest_first(&found);
    assert_eq!(sorted.len(), 4);
    assert_eq!(sorted[0].published, Some(date(2026, 8, 10)));
    assert_eq!(sorted[1].published, Some(date(2026, 7, 13)));
    assert_eq!(sorted[2].published, Some(date(2026, 6, 8)));
    // Undated sorts last, however recently it was written.
    assert_eq!(sorted[3].published, None);
}

#[test]
fn ties_are_broken_by_modification_time_then_kept_in_order() {
    let found = vec![
        vintage("/d/a.csv", None),
        vintage("/d/b.csv", Some(7)),
        vintage("/d/c.csv", None),
        vintage("/d/d.csv", Some(9)),
    ];
    let sorted = newest_first(&found);
    let names: Vec<&str> = sorted.iter().map(|v| v.path.as_str()).collect();
    assert_eq!(names, ["/d/d.csv", "/d/b.csv", "/d/a.csv", "/d/c.csv"]);
}

#[test]
fn only_csv_files_count() {
    assert!(has_csv_extension("/d/ISO10383_MIC_2026-08-10.csv", false));
    assert!(!has_csv_extension("/d/notes.txt", false));
    assert!(!has_csv_extension("/d/.csv", false));
    assert!(!has_csv_extension("/d/csv", false));
    assert!(has_csv_extension("x.tar.csv", false));
}

#[test]
fn the_empty_state_message_is_actionable() {
    let dir = Ok(DataDir { path: "/nonexistent/diurn/xyz".to_string(), note: None });
    let msg = no_registry_available(&dir);
    assert!(msg.contains("diurn mic fetch"));
    assert!(msg.contains("--path"));
    assert!(msg.contains("/nonexistent/diurn/xyz"));
    assert!(no_registry_available(&Err(NoDataDir)).contains("the data directory"));
}

#[test]
fn explicit_path_overrides_discovery() {
    let found = newest_first(&vec![vintage("/d/ISO10383_MIC_2099-01-12.csv", None)]);
    let dir = Ok(DataDir { path: "/d".to_string(), note: None });
    let plan = load(Some("/f/ISO10383_MIC_2026-08-10.csv"), None, &found, &dir, false).unwrap();
    assert_eq!(plan.path, "/f/ISO10383_MIC_2026-08-10.csv");
    assert_eq!(plan.published, Some(date(2026, 8, 10)));
}

#[test]
fn the_newest_vintage_is_selected_automatically() {
    let found = newest_first(&vec![
        vintage("/d/ISO10383_MIC_2026-06-08.csv", None),
        vintage("/d/ISO10383_MIC_2026-08-10.csv", None),
        vintage("/d/ISO10383_MIC_2026-07-13.csv", None),
    ]);
    let dir = Ok(DataDir { path: "/d".to_string(), note: None });
    let plan = load(None, None, &found, &dir, false).unwrap();
    assert_eq!(plan.path, "/d/ISO10383_MIC_2026-08-10.csv");
    let none = load(None, None, &Vec::new(), &dir, false).unwrap_err();
    assert!(none.message.contains("no MIC registry found in /d"));
}

#[test]
fn an_explicit_date_beats_the_filename() {
    let plan = load_path("ISO10383_MIC_2026-08-10.csv", Some(date(2026, 7, 13)), false);
    assert_eq!(plan.published, Some(date(2026, 7, 13)));
    assert_eq!(load_path("export.csv", None, false).published, None);
}

#[test]
fn a_fresh_install_explains_itself() {
    let dir = Ok(DataDir { path: "/tmp/fresh-install".to_string(), note: None });
    let err = load(None, None, &Vec::new(), &dir, false).unwrap_err().message;
    assert!(err.contains("no MIC registry found"), "{err}");
    assert!(err.contains("diurn mic fetch"), "{err}");
    assert!(err.contains("--path"), "{err}");
    assert!(err.contains("/tmp/fresh-install"), "{err}");
}

#[test]
fn windows_separators_bound_the_file_name() {
    let p = "C:\\data\\ISO10383_MIC_2026-08-10.csv";
    assert_eq!(published_from_filename_on(p, true), Some(date(2026, 8, 10)));
    assert!(has_csv_extension("C:\\d\\x.csv", true));
    assert!(!has_csv_extension("C:\\d\\.csv", true));
    assert!(has_csv_extension("C:\\d\\.csv", false), "the whole text is one name on Unix");
}

fn published_from_filename_on(p: &str, windows: bool) -> Option<Date> {
    diurn_cli::source::published_from_filename(p, windows)
}
