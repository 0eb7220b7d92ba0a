use orthanc_uploader::JsonField;
use orthanc_uploader::JsonObj;
use orthanc_uploader::JsonScalar;
use orthanc_uploader::OrthancUploadResponse;
use orthanc_uploader::OrthancUploadStatus;
use orthanc_uploader::classify_response;
use orthanc_uploader::decode_error;
use orthanc_uploader::decode_single;
use orthanc_uploader::status_from_str;
use orthanc_uploader::status_is_success;

fn text_field(name: &str, value: &str) -> JsonField {
    JsonField {
        name: String::from(name),
        value: JsonScalar::Text(String::from(value)),
    }
}

fn record_obj(status: &str) -> JsonObj {
    JsonObj {
        fields: vec![
            text_field("ID", "abc"),
            text_field("ParentPatient", "pp"),
            text_field("ParentSeries", "se"),
            text_field("ParentStudy", "st"),
            text_field("Path", "/instances/abc"),
            text_field("Status", status),
        ],
    }
}

const SINGLE_SUCCESS: &str = "{\"ID\":\"abc\",\"ParentPatient\":\"pp\",\"ParentSeries\":\"se\",\"ParentStudy\":\"st\",\"Path\":\"/instances/abc\",\"Status\":\"Success\"}";

const SINGLE_DUPLICATE: &str = "{\"ID\":\"abc\",\"ParentPatient\":\"pp\",\"ParentSeries\":\"se\",\"ParentStudy\":\"st\",\"Path\":\"/instances/abc\",\"Status\":\"AlreadyStored\"}";

fn batch_record(id: &str, status: &str) -> String {
    format!(
        "{{\"ID\":\"{}\",\"ParentPatient\":\"pp\",\"ParentSeries\":\"se\",\"ParentStudy\":\"st\",\"Path\":\"/instances/{}\",\"Status\":\"{}\"}}",
        id, id, status
    )
}

#[test]
fn single_success_message() {
    let outcome = classify_response(200, SINGLE_SUCCESS);
    match outcome {
        Ok(response) => {
            assert_eq!(response.success_message(), "Success");
            match &response {
                OrthancUploadResponse::OrthancDicomUploadResponse(inner) => {
                    assert_eq!(inner.id, "abc");
                    assert_eq!(inner.parent_patient, "pp");
                    assert_eq!(inner.parent_series, "se");
                    assert_eq!(inner.parent_study, "st");
                    assert_eq!(inner.path, "/instances/abc");
                    assert_eq!(inner.status, OrthancUploadStatus::Success);
                }
                OrthancUploadResponse::OrthancFolderUploadResponse(_) => {
                    panic!("expected a single record")
                }
            }
        }
        Err(_) => panic!("expected a success outcome"),
    }
}

#[test]
fn single_duplicate_message() {
    let outcome = classify_response(200, SINGLE_DUPLICATE);
    match outcome {
        Ok(response) => assert_eq!(response.success_message(), "Already Stored"),
        Err(_) => panic!("expected a success outcome"),
    }
}

#[test]
fn batch_message_counts_new_over_total() {
    let body = format!(
        "[{},{},{}]",
        batch_record("a", "Success"),
        batch_record("b", "Success"),
        batch_record("c", "AlreadyStored")
    );
    let outcome = classify_response(200, body.as_str());
    match outcome {
        Ok(response) => {
            assert_eq!(response.success_message(), "(2/3) (New/Total)");
            match &response {
                OrthancUploadResponse::OrthancFolderUploadResponse(records) => {
                    assert_eq!(records.len(), 3);
                    assert_eq!(records[2].status, OrthancUploadStatus::AlreadyStored);
                }
                OrthancUploadResponse::OrthancDicomUploadResponse(_) => {
                    panic!("expected a batch")
                }
            }
        }
        Err(_) => panic!("expected a success outcome"),
    }
}

#[test]
fn malformed_success_body_is_parse_failure() {
    let outcome = classify_response(200, "this is not json");
    match outcome {
        Ok(_) => panic!("expected a failure outcome"),
        Err(e) => {
            assert_eq!(e.details, "Failed to parse");
            assert_eq!(e.http_error, "");
            assert_eq!(e.http_status, 0);
            assert_eq!(e.message, "");
            assert_eq!(e.method, "");
            assert_eq!(e.orthanc_error, "");
            assert_eq!(e.orthanc_status, 0);
            assert_eq!(e.uri, "");
        }
    }
}

#[test]
fn success_status_with_scalar_body_is_parse_failure() {
    let outcome = classify_response(200, "42");
    match outcome {
        Ok(_) => panic!("expected a failure outcome"),
        Err(e) => assert_eq!(e.details, "Failed to parse"),
    }
}

#[test]
fn batch_with_bad_record_is_parse_failure() {
    let body = format!("[{},{{\"ID\":\"x\"}}]", batch_record("a", "Success"));
    let outcome = classify_response(200, body.as_str());
    match outcome {
        Ok(_) => panic!("expected a failure outcome"),
        Err(e) => assert_eq!(e.details, "Failed to parse"),
    }
}

#[test]
fn error_status_decodes_error_body() {
    let body = "{\"Details\":\"Bad file\",\"HttpError\":\"Bad Request\",\"HttpStatus\":400,\"Message\":\"Cannot parse\",\"Method\":\"POST\",\"OrthancError\":\"Bad file format\",\"OrthancStatus\":15,\"Uri\":\"/instances\"}";
    let outcome = classify_response(400, body);
    match outcome {
        Ok(_) => panic!("expected a failure outcome"),
        Err(e) => {
            assert_eq!(e.details, "Bad file");
            assert_eq!(e.http_error, "Bad Request");
            assert_eq!(e.http_status, 400);
            assert_eq!(e.message, "Cannot parse");
            assert_eq!(e.method, "POST");
            assert_eq!(e.orthanc_error, "Bad file format");
            assert_eq!(e.orthanc_status, 15);
            assert_eq!(e.uri, "/instances");
        }
    }
}

#[test]
fn error_status_with_malformed_body_is_parse_failure() {
    let outcome = classify_response(500, "<html>oops</html>");
    match outcome {
        Ok(_) => panic!("expected a failure outcome"),
        Err(e) => assert_eq!(e.details, "Failed to parse"),
    }
}

#[test]
fn error_status_never_yields_success() {
    let outcome = classify_response(404, SINGLE_SUCCESS);
    assert!(outcome.is_err());
}

#[test]
fn lowercase_field_names_are_accepted() {
    let body = "{\"id\":\"abc\",\"parent_patient\":\"pp\",\"parent_series\":\"se\",\"parent_study\":\"st\",\"path\":\"/instances/abc\",\"status\":\"Success\"}";
    let outcome = classify_response(204, body);
    match outcome {
        Ok(response) => assert_eq!(response.success_message(), "Success"),
        Err(_) => panic!("expected a success outcome"),
    }
}

#[test]
fn unknown_status_name_is_parse_failure() {
    let body = "{\"ID\":\"abc\",\"ParentPatient\":\"pp\",\"ParentSeries\":\"se\",\"ParentStudy\":\"st\",\"Path\":\"p\",\"Status\":\"Stored\"}";
    let outcome = classify_response(200, body);
    match outcome {
        Ok(_) => panic!("expected a failure outcome"),
        Err(e) => assert_eq!(e.details, "Failed to parse"),
    }
}

#[test]
fn status_name_decoding() {
    assert_eq!(
        status_from_str("AlreadyStored"),
        Some(OrthancUploadStatus::AlreadyStored)
    );
    assert_eq!(status_from_str("Success"), Some(OrthancUploadStatus::Success));
    assert_eq!(status_from_str("success"), None);
    assert_eq!(status_from_str(""), None);
}

#[test]
fn record_needs_every_field_and_a_known_status() {
    let some = |s: &str| Some(String::from(s));
    let r = orthanc_uploader::record_from_parts(
        some("abc"),
        some("pp"),
        some("se"),
        some("st"),
        some("/instances/abc"),
        some("AlreadyStored"),
    );
    let rec = r.expect("every field is present");
    assert_eq!(rec.status, OrthancUploadStatus::AlreadyStored);
    assert_eq!(rec.id, "abc");
    assert!(orthanc_uploader::record_from_parts(
        None,
        some("pp"),
        some("se"),
        some("st"),
        some("p"),
        some("Success")
    )
    .is_none());
    assert!(orthanc_uploader::record_from_parts(
        some("abc"),
        some("pp"),
        some("se"),
        some("st"),
        some("p"),
        some("Unknown")
    )
    .is_none());
}

#[test]
fn error_report_needs_every_field_in_range() {
    let some = |s: &str| Some(String::from(s));
    let r = orthanc_uploader::error_from_parts(
        some("d"),
        some("h"),
        Some(400),
        some("m"),
        some("POST"),
        some("oe"),
        Some(-3),
        some("/instances"),
    );
    let e = r.expect("every field is present");
    assert_eq!(e.http_status, 400);
    assert_eq!(e.orthanc_status, -3);
    assert!(orthanc_uploader::error_from_parts(
        some("d"),
        some("h"),
        Some(u64::from(u32::MAX) + 1),
        some("m"),
        some("POST"),
        some("oe"),
        Some(0),
        some("/instances"),
    )
    .is_none());
    assert!(orthanc_uploader::error_from_parts(
        some("d"),
        some("h"),
        None,
        some("m"),
        some("POST"),
        some("oe"),
        Some(0),
        some("/instances"),
    )
    .is_none());
}

#[test]
fn decode_single_reads_object_fields() {
    let rec = decode_single(&record_obj("AlreadyStored")).expect("every field is present");
    assert_eq!(rec.id, "abc");
    assert_eq!(rec.parent_series, "se");
    assert_eq!(rec.status, OrthancUploadStatus::AlreadyStored);
    let mut missing = record_obj("Success");
    missing.fields.remove(0);
    assert!(decode_single(&missing).is_none());
    assert!(decode_single(&record_obj("Stored")).is_none());
}

#[test]
fn decode_single_accepts_alias_and_prefers_wire_name() {
    let lower = JsonObj {
        fields: vec![
            text_field("id", "abc"),
            text_field("parent_patient", "pp"),
            text_field("parent_series", "se"),
            text_field("parent_study", "st"),
            text_field("path", "p"),
            text_field("status", "Success"),
        ],
    };
    assert_eq!(decode_single(&lower).expect("aliases accepted").id, "abc");
    let mut both = record_obj("Success");
    both.fields.push(text_field("id", "other"));
    assert_eq!(decode_single(&both).expect("wire name wins").id, "abc");
}

#[test]
fn decode_error_reads_number_fields() {
    let obj = JsonObj {
        fields: vec![
            text_field("Details", "d"),
            text_field("HttpError", "h"),
            JsonField {
                name: String::from("HttpStatus"),
                value: JsonScalar::Number { as_unsigned: Some(400), as_signed: Some(400) },
            },
            text_field("Message", "m"),
            text_field("Method", "POST"),
            text_field("OrthancError", "oe"),
            JsonField {
                name: String::from("OrthancStatus"),
                value: JsonScalar::Number { as_unsigned: None, as_signed: Some(-3) },
            },
            text_field("Uri", "/instances"),
        ],
    };
    let e = decode_error(&obj).expect("every field is present");
    assert_eq!(e.http_status, 400);
    assert_eq!(e.orthanc_status, -3);
    let mut too_big = obj;
    too_big.fields[2].value = JsonScalar::Number {
        as_unsigned: Some(u64::from(u32::MAX) + 1),
        as_signed: None,
    };
    assert!(decode_error(&too_big).is_none());
}

#[test]
fn status_code_ranges() {
    assert!(!status_is_success(199));
    assert!(status_is_success(200));
    assert!(status_is_success(299));
    assert!(!status_is_success(300));
    assert!(!status_is_success(404));
}
