use orthanc_uploader::DisabledFileUploadHistory;
use orthanc_uploader::FileUploadHistory;
use orthanc_uploader::TextFileUploadHistory;

#[test]
fn disabled_history_never_reports_uploaded() {
    let h = DisabledFileUploadHistory;
    assert!(!h.already_uploaded("/data/a.dcm"));
    assert!(!h.already_uploaded(""));
}

#[test]
fn disabled_history_records_nothing() {
    let mut h = DisabledFileUploadHistory;
    assert_eq!(h.on_success("/data/a.dcm"), None);
    assert!(!h.already_uploaded("/data/a.dcm"));
}

#[test]
fn text_history_loads_lines() {
    let h = TextFileUploadHistory::from_text("history.txt", "/data/a.dcm\n/data/b.dcm\n");
    assert!(h.already_uploaded("/data/a.dcm"));
    assert!(h.already_uploaded("/data/b.dcm"));
    assert!(!h.already_uploaded("/data/c.dcm"));
    assert_eq!(h.history_path(), "history.txt");
}

#[test]
fn text_history_trims_and_skips_blank_lines() {
    let h = TextFileUploadHistory::from_text("history.txt", "  /data/a.dcm \n\n\t\n/data/b.dcm");
    assert!(h.already_uploaded("/data/a.dcm"));
    assert!(h.already_uploaded("/data/b.dcm"));
    assert!(!h.already_uploaded(""));
}

#[test]
fn text_history_from_empty_text_is_empty() {
    let h = TextFileUploadHistory::from_text("history.txt", "");
    assert!(!h.already_uploaded("/data/a.dcm"));
}

#[test]
fn text_history_records_and_returns_log_line() {
    let mut h = TextFileUploadHistory::from_text("history.txt", "/data/a.dcm\n");
    assert!(!h.already_uploaded("/data/b.dcm"));
    let line = h.on_success("/data/b.dcm");
    assert_eq!(line, Some(String::from("/data/b.dcm\n")));
    assert!(h.already_uploaded("/data/b.dcm"));
    assert!(h.already_uploaded("/data/a.dcm"));
}

#[test]
fn second_run_skips_every_recorded_path() {
    let paths = ["/data/a.dcm", "/data/b.dcm", "/data/c.dcm"];
    let mut h = TextFileUploadHistory::from_text("history.txt", "");
    let mut log = String::new();
    for p in paths.iter() {
        assert!(!h.already_uploaded(p));
        if let Some(line) = h.on_success(p) {
            log.push_str(line.as_str());
        }
    }
    let h2 = TextFileUploadHistory::from_text("history.txt", log.as_str());
    for p in paths.iter() {
        assert!(h2.already_uploaded(p));
    }
    assert_eq!(log, "/data/a.dcm\n/data/b.dcm\n/data/c.dcm\n");
}
