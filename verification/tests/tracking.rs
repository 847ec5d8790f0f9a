use yado_notch::tracker::{
    config_document, config_path, default_mode, exe_name, watch_change, ConfigWatch, FOCUS_POLL_MS, extension_bucket, is_trackable_file, should_track, AppFilterMode,
    FocusState, ForegroundInfo, SaveConfigArgs, SaveDebouncer, TrackerConfig, DEBOUNCE_NS,
};

fn allowlist(apps: &[&str]) -> TrackerConfig {
    TrackerConfig {
        mode: AppFilterMode::Allowlist,
        apps: apps.iter().map(|s| s.to_string()).collect(),
        watch_folders: None,
    }
}

fn fg(exe: &str, title: &str) -> ForegroundInfo {
    ForegroundInfo { exe_name: exe.to_string(), window_title: title.to_string() }
}

#[test]
fn all_mode_tracks_everything() {
    let c = TrackerConfig::default();
    assert_eq!(c.mode, AppFilterMode::All);
    assert_eq!(default_mode(), AppFilterMode::All);
    assert!(should_track(&c, "anything.exe"));
}

#[test]
fn allowlist_ignores_ascii_case() {
    let c = allowlist(&["Chrome.EXE", "cursor.exe"]);
    assert!(should_track(&c, "chrome.exe"));
    assert!(should_track(&c, "CURSOR.exe"));
    assert!(!should_track(&c, "code.exe"));
    assert!(!should_track(&allowlist(&[]), "chrome.exe"));
    // Only ASCII letters fold.
    assert!(!should_track(&allowlist(&["É.exe"]), "é.exe"));
}

#[test]
fn settings_mode_names() {
    assert_eq!(AppFilterMode::from_setting("allowlist"), AppFilterMode::Allowlist);
    assert_eq!(AppFilterMode::from_setting("all"), AppFilterMode::All);
    assert_eq!(AppFilterMode::from_setting("Allowlist"), AppFilterMode::All);
    let c = TrackerConfig::from_args(SaveConfigArgs {
        mode: "allowlist".to_string(),
        apps: vec!["a.exe".to_string()],
        watch_folders: Some(vec!["D:\\p".to_string()]),
    });
    assert_eq!(c.mode, AppFilterMode::Allowlist);
    assert_eq!(c.apps, vec!["a.exe".to_string()]);
    assert_eq!(c.watch_folders, Some(vec!["D:\\p".to_string()]));
}

#[test]
fn watch_folders_default_when_missing_or_empty() {
    let mut c = TrackerConfig::default();
    assert!(c.explicit_watch_folders().is_none());
    c.watch_folders = Some(Vec::new());
    assert!(c.explicit_watch_folders().is_none());
    c.watch_folders = Some(vec!["x".to_string()]);
    assert_eq!(c.explicit_watch_folders().unwrap().len(), 1);
}

#[test]
fn config_file_lives_in_data_dir() {
    let p = config_path("data");
    assert!(p == "data/config.json" || p == "data\\config.json");
    assert_eq!(config_path("data/"), "data/config.json");
    let p = config_path("/a/b");
    assert!(p == "/a/b/config.json" || p == "/a/b\\config.json");
    assert_eq!(config_path(""), "config.json");
}

#[test]
fn focus_records_each_switch_once() {
    let c = TrackerConfig::default();
    let mut s = FocusState::new();
    let e = s.observe(&c, fg("chrome.exe", "Inbox")).unwrap();
    assert_eq!(e.app_name, "chrome.exe");
    assert_eq!(e.detail.as_deref(), Some("Inbox"));
    assert!(s.observe(&c, fg("chrome.exe", "Other tab")).is_none());
    let e = s.observe(&c, fg("code.exe", "")).unwrap();
    assert_eq!(e.detail, None);
    assert!(s.observe(&c, fg("chrome.exe", "x")).is_some());
}

#[test]
fn focus_skips_own_and_untracked_apps() {
    let c = allowlist(&["code.exe"]);
    let mut s = FocusState::new();
    assert!(s.observe(&c, fg("activity-widget.exe", "w")).is_none());
    assert_eq!(s.last_app, None);
    assert!(s.observe(&c, fg("chrome.exe", "w")).is_none());
    assert_eq!(s.last_app.as_deref(), Some("chrome.exe"));
    assert!(s.observe(&c, fg("code.exe", "w")).is_some());
}

#[test]
fn extension_buckets() {
    assert_eq!(extension_bucket("rs"), "Code");
    assert_eq!(extension_bucket("dart"), "Code");
    assert_eq!(extension_bucket("pdf"), "Docs");
    assert_eq!(extension_bucket("heic"), "Images");
    assert_eq!(extension_bucket("flac"), "Media");
    assert_eq!(extension_bucket("zip"), "Files");
    assert_eq!(extension_bucket(""), "Files");
}

#[test]
fn trackable_files() {
    assert!(is_trackable_file("main.rs", "rs"));
    assert!(!is_trackable_file(".env", ""));
    assert!(!is_trackable_file("~$report.docx", "docx"));
    assert!(!is_trackable_file("setup.crdownload", "crdownload"));
    assert!(!is_trackable_file("x.lock", "lock"));
    assert!(is_trackable_file("notes", ""));
}

#[test]
fn saves_are_debounced_per_file() {
    let mut d = SaveDebouncer::new();
    let a = "C:\\a.txt".to_string();
    let b = "C:\\b.txt".to_string();
    assert!(d.observe(&a, 0));
    assert!(!d.observe(&a, DEBOUNCE_NS - 1));
    assert!(d.observe(&b, 10));
    assert!(d.observe(&a, DEBOUNCE_NS));
    assert!(!d.observe(&a, DEBOUNCE_NS + 5));
}

#[test]
fn save_memory_is_cleared_past_limit() {
    let mut d = SaveDebouncer::new();
    for i in 0..10_000u64 {
        assert!(d.observe(&format!("f{i}"), 0));
    }
    // The 10 001st file overflows the memory, which is emptied.
    assert!(d.observe(&"extra".to_string(), 0));
    assert!(d.observe(&"f0".to_string(), 1));
}

#[test]
fn record_save_filters_debounces_and_classifies() {
    let mut d = SaveDebouncer::new();
    let p = "C:\\src\\main.rs".to_string();
    assert_eq!(d.record_save("main.rs", "rs", &p, 0), Some("Code"));
    assert_eq!(d.record_save("main.rs", "rs", &p, 10), None);
    let t = "C:\\x.tmp".to_string();
    assert_eq!(d.record_save("x.tmp", "tmp", &t, 0), None);
    assert_eq!(d.record_save("main.rs", "rs", &p, DEBOUNCE_NS), Some("Code"));
    let q = "C:\\a.png".to_string();
    assert_eq!(d.record_save("a.png", "png", &q, 0), Some("Images"));
}

#[test]
fn record_save_lowercases_name_and_extension() {
    let mut d = SaveDebouncer::new();
    let p = "C:\\docs\\Notes.TXT".to_string();
    assert_eq!(d.record_save("Notes.TXT", "TXT", &p, 0), Some("Docs"));
    let t = "C:\\Report.TMP".to_string();
    assert_eq!(d.record_save("Report.TMP", "TMP", &t, 0), None);
    let i = "C:\\Photo.JPEG".to_string();
    assert_eq!(d.record_save("Photo.JPEG", "JPEG", &i, 0), Some("Images"));
    let l = "C:\\~$Plan.docx".to_string();
    assert_eq!(d.record_save("~$Plan.docx", "docx", &l, 0), None);
}

#[test]
fn tracking_decision_same_for_any_ascii_case() {
    let c = allowlist(&["Code.exe"]);
    assert_eq!(should_track(&c, "CODE.EXE"), should_track(&c, "code.exe"));
    assert!(should_track(&c, "cOdE.ExE"));
}

#[test]
fn config_reloads_once_per_change() {
    assert_eq!(FOCUS_POLL_MS, 1500);
    let mut w = ConfigWatch::new(Some(100));
    assert!(!w.poll(100));
    assert!(w.poll(250));
    assert_eq!(w.seen, Some(250));
    assert!(!w.poll(250));
    assert!(w.poll(-5));
    let mut fresh = ConfigWatch::new(None);
    assert!(fresh.poll(100));
    assert!(!fresh.poll(100));
}

#[test]
fn config_document_reads_json_text() {
    let doc = config_document("{\"mode\":\"allowlist\",\"apps\":[\"code.exe\"]}").unwrap();
    assert_eq!(doc["mode"], "allowlist");
    assert_eq!(doc["apps"][0], "code.exe");
    assert!(config_document("{").is_err());
    assert!(config_document("").is_err());
    assert!(config_document("{} {}").is_err());
    let err = config_document("{").unwrap_err();
    assert!(err.contains("line 1"));
}

#[test]
fn watch_change_reaims_folders() {
    let s = |v: &[&str]| v.iter().map(|x| x.to_string()).collect::<Vec<String>>();
    let defaults = s(&["C:\\Desktop", "C:\\Documents"]);
    let mut c = TrackerConfig::default();
    let (add, remove) = watch_change(&Vec::new(), &c, &defaults);
    assert_eq!(add, defaults);
    assert!(remove.is_empty());
    c.watch_folders = Some(s(&["D:\\work", "C:\\Desktop"]));
    let (add, remove) = watch_change(&defaults, &c, &defaults);
    assert_eq!(add, s(&["D:\\work"]));
    assert_eq!(remove, s(&["C:\\Documents"]));
    c.watch_folders = Some(Vec::new());
    let (add, remove) = watch_change(&s(&["D:\\work", "C:\\Desktop"]), &c, &defaults);
    assert_eq!(add, s(&["C:\\Documents"]));
    assert_eq!(remove, s(&["D:\\work"]));
}

#[test]
fn exe_name_is_lower_case_file_name() {
    assert_eq!(exe_name("Code.EXE"), Some("code.exe".to_string()));
    assert_eq!(exe_name(""), None);
    assert_eq!(exe_name("ÉDIT.exe"), Some("édit.exe".to_string()));
}
