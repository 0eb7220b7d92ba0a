use orthanc_uploader::DisabledFileUploadHistory;
use orthanc_uploader::FileUploadHistory;
use orthanc_uploader::OrthancDicomUploadResponse;
use orthanc_uploader::OrthancErrorResponse;
use orthanc_uploader::OrthancUploadResponse;
use orthanc_uploader::OrthancUploadStatus;
use orthanc_uploader::Tally;
use orthanc_uploader::TextFileUploadHistory;
use orthanc_uploader::UploadResult;

fn record(status: OrthancUploadStatus) -> OrthancDicomUploadResponse {
    OrthancDicomUploadResponse {
        id: String::from("abc"),
        parent_patient: String::from("pp"),
        parent_series: String::from("se"),
        parent_study: String::from("st"),
        path: String::from("/instances/abc"),
        status,
    }
}

fn ok_result(path: &str) -> UploadResult {
    UploadResult {
        path: String::from(path),
        response: Ok(OrthancUploadResponse::OrthancDicomUploadResponse(record(
            OrthancUploadStatus::Success,
        ))),
    }
}

fn err_result(path: &str) -> UploadResult {
    UploadResult {
        path: String::from(path),
        response: Err(OrthancErrorResponse::failed_to_parse()),
    }
}

#[test]
fn success_is_counted_and_recorded() {
    let mut tally = Tally::new();
    let mut history = TextFileUploadHistory::from_text("history.txt", "");
    let out = tally.record(&mut history, &ok_result("/data/a.dcm"), false);
    assert_eq!(tally.successes, 1);
    assert_eq!(tally.failures, 0);
    assert_eq!(out.line, "/data/a.dcm: Success");
    assert_eq!(out.dump, None);
    assert_eq!(out.log_line, Some(String::from("/data/a.dcm\n")));
    assert!(history.already_uploaded("/data/a.dcm"));
}

#[test]
fn verbose_success_yields_full_dump() {
    let mut tally = Tally::new();
    let mut history = DisabledFileUploadHistory;
    let out = tally.record(&mut history, &ok_result("/data/a.dcm"), true);
    assert_eq!(out.log_line, None);
    let dump = out.dump.expect("verbose output should carry the rendering");
    assert_eq!(
        dump,
        "OrthancUploadResponse:\n    ID: abc\n    Orthanc Patient ID: pp\n    Orthanc Series ID: se\n    Orthanc Study ID: st\n    Stored Path: /instances/abc\n    Status: Success"
    );
}

#[test]
fn failure_is_counted_and_always_dumped() {
    let mut tally = Tally::new();
    let mut history = TextFileUploadHistory::from_text("history.txt", "");
    let out = tally.record(&mut history, &err_result("/data/bad.dcm"), false);
    assert_eq!(tally.successes, 0);
    assert_eq!(tally.failures, 1);
    assert_eq!(out.line, "/data/bad.dcm: Error");
    assert_eq!(out.log_line, None);
    assert!(!history.already_uploaded("/data/bad.dcm"));
    let dump = out.dump.expect("an error is always dumped");
    assert_eq!(
        dump,
        "OrthancErrorResponse:\n    Details: Failed to parse\n    Http Error: \n    Http Status: 0\n    Message: \n    Method: \n    Orthanc Error: \n    Orthanc Status: 0\n    Uri: "
    );
}

#[test]
fn error_rendering_shows_negative_status() {
    let e = OrthancErrorResponse {
        details: String::from("d"),
        http_error: String::from("h"),
        http_status: 404,
        message: String::from("m"),
        method: String::from("POST"),
        orthanc_error: String::from("oe"),
        orthanc_status: -7,
        uri: String::from("/instances"),
    };
    assert_eq!(
        e.render(),
        "OrthancErrorResponse:\n    Details: d\n    Http Error: h\n    Http Status: 404\n    Message: m\n    Method: POST\n    Orthanc Error: oe\n    Orthanc Status: -7\n    Uri: /instances"
    );
}

#[test]
fn all_successes_tally_to_n_and_zero() {
    let paths = ["/d/1.dcm", "/d/2.dcm", "/d/3.dcm"];
    let mut tally = Tally::new();
    let mut history = TextFileUploadHistory::from_text("history.txt", "");
    for p in paths.iter() {
        assert!(!history.already_uploaded(p));
        tally.record(&mut history, &ok_result(p), false);
    }
    assert_eq!(tally.successes, 3);
    assert_eq!(tally.failures, 0);
    for p in paths.iter() {
        assert!(history.already_uploaded(p));
    }
}

#[test]
fn summary_prints_both_totals() {
    let mut tally = Tally::new();
    let mut history = DisabledFileUploadHistory;
    tally.record(&mut history, &ok_result("/d/1.dcm"), false);
    tally.record(&mut history, &ok_result("/d/2.dcm"), false);
    tally.record(&mut history, &err_result("/d/3.dcm"), false);
    assert_eq!(tally.summary(), "Successes: 2\nFailures: 1");
}

#[test]
fn batch_success_line_uses_counts() {
    let mut tally = Tally::new();
    let mut history = DisabledFileUploadHistory;
    let result = UploadResult {
        path: String::from("/d/folder.zip"),
        response: Ok(OrthancUploadResponse::OrthancFolderUploadResponse(vec![
            record(OrthancUploadStatus::Success),
            record(OrthancUploadStatus::AlreadyStored),
            record(OrthancUploadStatus::Success),
            record(OrthancUploadStatus::Success),
        ])),
    };
    let out = tally.record(&mut history, &result, false);
    assert_eq!(out.line, "/d/folder.zip: (3/4) (New/Total)");
}
