use vstd::prelude::*;

use crate::orthanc_types::OrthancDicomUploadResponse;
use crate::orthanc_types::OrthancErrorResponse;
use crate::orthanc_types::OrthancUploadResponse;
use crate::orthanc_types::OrthancUploadStatus;
use crate::orthanc_types::is_failed_to_parse;
use crate::text::str_eq;

verus! {

/// Pairs a file path with the classified outcome of its upload attempt.
pub struct UploadResult {
    pub path: String,
    pub response: Result<OrthancUploadResponse, OrthancErrorResponse>,
}

// ---------------------------------------------------------------------------
// The classifier's reading of a parsed reply body
// ---------------------------------------------------------------------------

/// What the classifier reads of one value inside a JSON object: a string
/// whole, a number through its two integer readings, anything else opaque.
pub enum JsonScalar {
    Text(String),
    Number { as_unsigned: Option<u64>, as_signed: Option<i64> },
    Other,
}

/// One member of a JSON object.
pub struct JsonField {
    pub name: String,
    pub value: JsonScalar,
}

/// A JSON object, its members in the order the parser hands them out.
pub struct JsonObj {
    pub fields: Vec<JsonField>,
}

/// What the classifier reads of a parsed reply body: the top-level kind,
/// and beneath it the object members. An array element that is not an
/// object is `None`.
pub enum JsonDoc {
    Object(JsonObj),
    Array(Vec<Option<JsonObj>>),
    Other,
}

/// The reading of a JSON text: a function of the text alone, `None` when
/// the text is not valid JSON.
pub uninterp spec fn json_doc_of(s: Seq<char>) -> Option<JsonDoc>;

#[verifier::external_type_specification]
#[verifier::external_body]
pub struct ExValue(serde_json::Value);

#[verifier::external_type_specification]
#[verifier::external_body]
#[verifier::reject_recursive_types(K)]
#[verifier::reject_recursive_types(V)]
pub struct ExMap<K, V>(serde_json::Map<K, V>);

/// Relies on serde_json::from_str::<serde_json::Value>: parses a JSON text,
/// `None` when the text is not valid JSON; the tree is then read down into
/// a `JsonDoc`. The result depends on the text alone.
#[verifier::external_body]
fn parse_doc(s: &str) -> (r: Option<JsonDoc>)
    ensures
        r == json_doc_of(s@),
{
    let v: serde_json::Value = serde_json::from_str(s).ok()?;
    Some(doc_of_value(&v))
}

/// Relies on serde_json::Value::as_object and Value::as_array: tells the
/// top-level kinds apart, converting each object met.
#[verifier::external_body]
fn doc_of_value(v: &serde_json::Value) -> (r: JsonDoc) {
    if let Some(map) = v.as_object() {
        JsonDoc::Object(obj_of_map(map))
    } else if let Some(items) = v.as_array() {
        JsonDoc::Array(items.iter().map(|e| e.as_object().map(obj_of_map)).collect())
    } else {
        JsonDoc::Other
    }
}

/// Relies on serde_json::Map::iter: hands every member out, name and value.
#[verifier::external_body]
fn obj_of_map(map: &serde_json::Map<String, serde_json::Value>) -> (r: JsonObj) {
    JsonObj {
        fields: map.iter().map(
            |entry: (&String, &serde_json::Value)|
                JsonField { name: entry.0.clone(), value: scalar_of_value(entry.1) },
        ).collect(),
    }
}

/// Relies on serde_json::Value::as_str, Value::is_number, Value::as_u64 and
/// Value::as_i64: reads a string whole and a number through its integer
/// readings.
#[verifier::external_body]
fn scalar_of_value(v: &serde_json::Value) -> (r: JsonScalar) {
    if let Some(s) = v.as_str() {
        JsonScalar::Text(s.to_string())
    } else if v.is_number() {
        JsonScalar::Number { as_unsigned: v.as_u64(), as_signed: v.as_i64() }
    } else {
        JsonScalar::Other
    }
}

// ---------------------------------------------------------------------------
// Field lookup (verified)
// ---------------------------------------------------------------------------

/// The value of the first member named `name`.
pub open spec fn lookup_field(fields: Seq<JsonField>, name: Seq<char>) -> Option<JsonScalar>
    decreases fields.len(),
{
    if fields.len() == 0 {
        None
    } else if fields[0].name@ == name {
        Some(fields[0].value)
    } else {
        lookup_field(fields.drop_first(), name)
    }
}

/// The string value of the member named `name`, if it is a string.
pub open spec fn spec_string_field(fields: Seq<JsonField>, name: Seq<char>) -> Option<String> {
    match lookup_field(fields, name) {
        Some(JsonScalar::Text(s)) => Some(s),
        _ => None,
    }
}

/// The unsigned reading of the member named `name`, if it has one.
pub open spec fn spec_u64_field(fields: Seq<JsonField>, name: Seq<char>) -> Option<u64> {
    match lookup_field(fields, name) {
        Some(JsonScalar::Number { as_unsigned: Some(n), .. }) => Some(n),
        _ => None,
    }
}

/// The signed reading of the member named `name`, if it has one.
pub open spec fn spec_i64_field(fields: Seq<JsonField>, name: Seq<char>) -> Option<i64> {
    match lookup_field(fields, name) {
        Some(JsonScalar::Number { as_signed: Some(n), .. }) => Some(n),
        _ => None,
    }
}

/// The string member under the capitalized wire name, or under the field's
/// own name as an alias.
pub open spec fn spec_aliased_string(
    fields: Seq<JsonField>,
    wire: Seq<char>,
    alias: Seq<char>,
) -> Option<String> {
    match spec_string_field(fields, wire) {
        Some(s) => Some(s),
        None => spec_string_field(fields, alias),
    }
}

impl JsonObj {
    /// The value of the first member named `name`, if any.
    pub fn field(&self, name: &str) -> (r: Option<&JsonScalar>)
        ensures
            match r {
                Some(s) => lookup_field(self.fields@, name@) == Some(*s),
                None => lookup_field(self.fields@, name@) is None,
            },
    {
        let mut i: usize = 0;
        proof {
            assert(self.fields@.skip(0) =~= self.fields@);
        }
        while i < self.fields.len()
            invariant
                i <= self.fields@.len(),
                lookup_field(self.fields@, name@) == lookup_field(
                    self.fields@.skip(i as int),
                    name@,
                ),
            decreases self.fields@.len() - i,
        {
            proof {
                assert(self.fields@.skip(i as int)[0] == self.fields@[i as int]);
                assert(self.fields@.skip(i as int).drop_first() =~= self.fields@.skip(i + 1));
            }
            if str_eq(self.fields[i].name.as_str(), name) {
                return Some(&self.fields[i].value);
            }
            i = i + 1;
        }
        proof {
            assert(self.fields@.skip(self.fields@.len() as int) =~= Seq::<JsonField>::empty());
        }
        None
    }

    /// The string member named `name`, if it is a string.
    pub fn string_field(&self, name: &str) -> (r: Option<String>)
        ensures
            r == spec_string_field(self.fields@, name@),
    {
        match self.field(name) {
            Some(JsonScalar::Text(s)) => Some(s.clone()),
            _ => None,
        }
    }

    /// The unsigned reading of the member named `name`, if it has one.
    pub fn u64_field(&self, name: &str) -> (r: Option<u64>)
        ensures
            r == spec_u64_field(self.fields@, name@),
    {
        match self.field(name) {
            Some(JsonScalar::Number { as_unsigned: Some(n), .. }) => Some(*n),
            _ => None,
        }
    }

    /// The signed reading of the member named `name`, if it has one.
    pub fn i64_field(&self, name: &str) -> (r: Option<i64>)
        ensures
            r == spec_i64_field(self.fields@, name@),
    {
        match self.field(name) {
            Some(JsonScalar::Number { as_signed: Some(n), .. }) => Some(*n),
            _ => None,
        }
    }

    /// The string member under the wire name, or under its alias.
    pub fn aliased_string(&self, wire: &str, alias: &str) -> (r: Option<String>)
        ensures
            r == spec_aliased_string(self.fields@, wire@, alias@),
    {
        match self.string_field(wire) {
            Some(s) => Some(s),
            None => self.string_field(alias),
        }
    }
}

// ---------------------------------------------------------------------------
// Record status
// ---------------------------------------------------------------------------

/// The status names the wire protocol uses for one stored record.
pub open spec fn status_from_str_spec(s: Seq<char>) -> Option<OrthancUploadStatus> {
    if s == "AlreadyStored"@ {
        Some(OrthancUploadStatus::AlreadyStored)
    } else if s == "Success"@ {
        Some(OrthancUploadStatus::Success)
    } else {
        None
    }
}

/// Decodes a record status from its wire name.
pub fn status_from_str(s: &str) -> (r: Option<OrthancUploadStatus>)
    ensures
        r == status_from_str_spec(s@),
{
    if str_eq(s, "AlreadyStored") {
        Some(OrthancUploadStatus::AlreadyStored)
    } else if str_eq(s, "Success") {
        Some(OrthancUploadStatus::Success)
    } else {
        None
    }
}

/// Assembles one record from its decoded fields: a record exists exactly
/// when every field was present and the status name is a known one.
pub fn record_from_parts(
    id: Option<String>,
    parent_patient: Option<String>,
    parent_series: Option<String>,
    parent_study: Option<String>,
    path: Option<String>,
    status_name: Option<String>,
) -> (r: Option<OrthancDicomUploadResponse>)
    ensures
        (r is Some) == (id is Some && parent_patient is Some && parent_series is Some
            && parent_study is Some && path is Some && status_name is Some
            && status_from_str_spec(status_name->0@) is Some),
        r matches Some(rec) ==> {
            &&& rec.id == id->0
            &&& rec.parent_patient == parent_patient->0
            &&& rec.parent_series == parent_series->0
            &&& rec.parent_study == parent_study->0
            &&& rec.path == path->0
            &&& Some(rec.status) == status_from_str_spec(status_name->0@)
        },
{
    match (id, parent_patient, parent_series, parent_study, path, status_name) {
        (
            Some(id),
            Some(parent_patient),
            Some(parent_series),
            Some(parent_study),
            Some(path),
            Some(status_name),
        ) => match status_from_str(status_name.as_str()) {
            Some(status) => Some(
                OrthancDicomUploadResponse {
                    id,
                    parent_patient,
                    parent_series,
                    parent_study,
                    path,
                    status,
                },
            ),
            None => None,
        },
        _ => None,
    }
}

// ---------------------------------------------------------------------------
// Decoding the three body shapes (verified)
// ---------------------------------------------------------------------------

/// The record an object body decodes to, if it carries every field under
/// its wire name or alias and a known status.
pub open spec fn spec_decode_single(fields: Seq<JsonField>) -> Option<OrthancDicomUploadResponse> {
    let id = spec_aliased_string(fields, "ID"@, "id"@);
    let parent_patient = spec_aliased_string(fields, "ParentPatient"@, "parent_patient"@);
    let parent_series = spec_aliased_string(fields, "ParentSeries"@, "parent_series"@);
    let parent_study = spec_aliased_string(fields, "ParentStudy"@, "parent_study"@);
    let path = spec_aliased_string(fields, "Path"@, "path"@);
    let status_name = spec_aliased_string(fields, "Status"@, "status"@);
    if id is Some && parent_patient is Some && parent_series is Some && parent_study is Some
        && path is Some && status_name is Some && status_from_str_spec(status_name->0@) is Some {
        Some(
            OrthancDicomUploadResponse {
                id: id->0,
                parent_patient: parent_patient->0,
                parent_series: parent_series->0,
                parent_study: parent_study->0,
                path: path->0,
                status: status_from_str_spec(status_name->0@)->0,
            },
        )
    } else {
        None
    }
}

/// Decodes one record from an object body.
pub fn decode_single(obj: &JsonObj) -> (r: Option<OrthancDicomUploadResponse>)
    ensures
        r == spec_decode_single(obj.fields@),
{
    record_from_parts(
        obj.aliased_string("ID", "id"),
        obj.aliased_string("ParentPatient", "parent_patient"),
        obj.aliased_string("ParentSeries", "parent_series"),
        obj.aliased_string("ParentStudy", "parent_study"),
        obj.aliased_string("Path", "path"),
        obj.aliased_string("Status", "status"),
    )
}

/// The records an array body decodes to from element `i` on: every element
/// must be an object decoding as a record, kept in body order.
pub open spec fn spec_decode_folder_from(items: Seq<Option<JsonObj>>, i: int) -> Option<
    Seq<OrthancDicomUploadResponse>,
>
    decreases items.len() - i,
{
    if i >= items.len() {
        Some(Seq::<OrthancDicomUploadResponse>::empty())
    } else {
        match items[i] {
            Option::None => None,
            Option::Some(obj) => match spec_decode_single(obj.fields@) {
                Option::None => None,
                Option::Some(rec) => match spec_decode_folder_from(items, i + 1) {
                    Option::None => None,
                    Option::Some(rest) => Some(seq![rec] + rest),
                },
            },
        }
    }
}

/// The records an array body decodes to, in body order.
pub open spec fn spec_decode_folder(items: Seq<Option<JsonObj>>) -> Option<
    Seq<OrthancDicomUploadResponse>,
> {
    spec_decode_folder_from(items, 0)
}

fn decode_folder_from(items: &Vec<Option<JsonObj>>, i: usize) -> (r: Option<
    Vec<OrthancDicomUploadResponse>,
>)
    ensures
        (r is Some) == (spec_decode_folder_from(items@, i as int) is Some),
        r matches Some(v) ==> Some(v@) == spec_decode_folder_from(items@, i as int),
    decreases items@.len() - i,
{
    if i >= items.len() {
        let v = Vec::<OrthancDicomUploadResponse>::new();
        proof {
            assert(v@ =~= Seq::<OrthancDicomUploadResponse>::empty());
        }
        return Some(v);
    }
    match &items[i] {
        Option::None => None,
        Option::Some(obj) => match decode_single(obj) {
            Option::None => None,
            Option::Some(rec) => match decode_folder_from(items, i + 1) {
                Option::None => None,
                Option::Some(mut rest) => {
                    let ghost grec = rec;
                    let ghost grest = rest@;
                    rest.insert(0, rec);
                    proof {
                        assert(rest@ =~= seq![grec] + grest);
                    }
                    Some(rest)
                },
            },
        },
    }
}

/// Decodes the records of an array body, in body order.
pub fn decode_folder(items: &Vec<Option<JsonObj>>) -> (r: Option<Vec<OrthancDicomUploadResponse>>)
    ensures
        (r is Some) == (spec_decode_folder(items@) is Some),
        r matches Some(v) ==> Some(v@) == spec_decode_folder(items@),
{
    decode_folder_from(items, 0)
}

/// The error report an object body decodes to, if it carries every field
/// under its wire name or alias and an HTTP status that fits its type.
pub open spec fn spec_decode_error(fields: Seq<JsonField>) -> Option<OrthancErrorResponse> {
    let details = spec_aliased_string(fields, "Details"@, "details"@);
    let http_error = spec_aliased_string(fields, "HttpError"@, "http_error"@);
    let http_status = match spec_u64_field(fields, "HttpStatus"@) {
        Some(n) => Some(n),
        None => spec_u64_field(fields, "http_status"@),
    };
    let message = spec_aliased_string(fields, "Message"@, "message"@);
    let method = spec_aliased_string(fields, "Method"@, "method"@);
    let orthanc_error = spec_aliased_string(fields, "OrthancError"@, "orthanc_error"@);
    let orthanc_status = match spec_i64_field(fields, "OrthancStatus"@) {
        Some(n) => Some(n),
        None => spec_i64_field(fields, "orthanc_status"@),
    };
    let uri = spec_aliased_string(fields, "Uri"@, "uri"@);
    if details is Some && http_error is Some && http_status is Some && message is Some
        && method is Some && orthanc_error is Some && orthanc_status is Some && uri is Some
        && http_status->0 <= u32::MAX {
        Some(
            OrthancErrorResponse {
                details: details->0,
                http_error: http_error->0,
                http_status: http_status->0 as u32,
                message: message->0,
                method: method->0,
                orthanc_error: orthanc_error->0,
                orthanc_status: orthanc_status->0,
                uri: uri->0,
            },
        )
    } else {
        None
    }
}

/// Assembles an error report from its decoded fields: a report exists
/// exactly when every field was present and the HTTP status fits its type.
pub fn error_from_parts(
    details: Option<String>,
    http_error: Option<String>,
    http_status: Option<u64>,
    message: Option<String>,
    method: Option<String>,
    orthanc_error: Option<String>,
    orthanc_status: Option<i64>,
    uri: Option<String>,
) -> (r: Option<OrthancErrorResponse>)
    ensures
        (r is Some) == (details is Some && http_error is Some && http_status is Some
            && message is Some && method is Some && orthanc_error is Some && orthanc_status is Some
            && uri is Some && http_status->0 <= u32::MAX),
        r matches Some(e) ==> {
            &&& e.details == details->0
            &&& e.http_error == http_error->0
            &&& e.http_status == http_status->0
            &&& e.message == message->0
            &&& e.method == method->0
            &&& e.orthanc_error == orthanc_error->0
            &&& e.orthanc_status == orthanc_status->0
            &&& e.uri == uri->0
        },
{
    match (details, http_error, http_status, message, method, orthanc_error, orthanc_status, uri) {
        (
            Some(details),
            Some(http_error),
            Some(http_status),
            Some(message),
            Some(method),
            Some(orthanc_error),
            Some(orthanc_status),
            Some(uri),
        ) => {
            if http_status <= u32::MAX as u64 {
                Some(
                    OrthancErrorResponse {
                        details,
                        http_error,
                        http_status: http_status as u32,
                        message,
                        method,
                        orthanc_error,
                        orthanc_status,
                        uri,
                    },
                )
            } else {
                None
            }
        },
        _ => None,
    }
}

/// Decodes an error report from an object body.
pub fn decode_error(obj: &JsonObj) -> (r: Option<OrthancErrorResponse>)
    ensures
        r == spec_decode_error(obj.fields@),
{
    let http_status = match obj.u64_field("HttpStatus") {
        Some(n) => Some(n),
        None => obj.u64_field("http_status"),
    };
    let orthanc_status = match obj.i64_field("OrthancStatus") {
        Some(n) => Some(n),
        None => obj.i64_field("orthanc_status"),
    };
    error_from_parts(
        obj.aliased_string("Details", "details"),
        obj.aliased_string("HttpError", "http_error"),
        http_status,
        obj.aliased_string("Message", "message"),
        obj.aliased_string("Method", "method"),
        obj.aliased_string("OrthancError", "orthanc_error"),
        orthanc_status,
        obj.aliased_string("Uri", "uri"),
    )
}

// ---------------------------------------------------------------------------
// The classifier
// ---------------------------------------------------------------------------

/// Whether an HTTP status code counts as success.
pub open spec fn status_is_success_spec(code: u16) -> bool {
    200 <= code < 300
}

/// Whether an HTTP status code counts as success (the 2xx range).
pub fn status_is_success(code: u16) -> (r: bool)
    ensures
        r == status_is_success_spec(code),
{
    200 <= code && code < 300
}

/// How one reply must classify, given the reading of its body. On a success
/// status, an object body decoding as a record yields that single record, an
/// array body whose every element decodes yields the batch in body order;
/// on a failure status, an object body decoding as an error report yields
/// it. In every remaining case the outcome is the synthetic parse-failure
/// error.
pub open spec fn classifies(
    status_code: u16,
    doc: Option<JsonDoc>,
    r: Result<OrthancUploadResponse, OrthancErrorResponse>,
) -> bool {
    match doc {
        Option::None => r matches Err(e) && is_failed_to_parse(e),
        Option::Some(d) => if status_is_success_spec(status_code) {
            match d {
                JsonDoc::Object(obj) => match spec_decode_single(obj.fields@) {
                    Some(rec) => r == Ok::<OrthancUploadResponse, OrthancErrorResponse>(
                        OrthancUploadResponse::OrthancDicomUploadResponse(rec),
                    ),
                    None => r matches Err(e) && is_failed_to_parse(e),
                },
                JsonDoc::Array(items) => match spec_decode_folder(items@) {
                    Some(recs) => r matches Ok(
                        OrthancUploadResponse::OrthancFolderUploadResponse(v),
                    ) && v@ == recs,
                    None => r matches Err(e) && is_failed_to_parse(e),
                },
                JsonDoc::Other => r matches Err(e) && is_failed_to_parse(e),
            }
        } else {
            match d {
                JsonDoc::Object(obj) => match spec_decode_error(obj.fields@) {
                    Some(err) => r == Err::<OrthancUploadResponse, OrthancErrorResponse>(err),
                    None => r matches Err(e) && is_failed_to_parse(e),
                },
                _ => r matches Err(e) && is_failed_to_parse(e),
            }
        },
    }
}

/// Classifies one HTTP reply into a typed outcome, exactly as `classifies`
/// says of the body's reading: the status decides which decode is tried, the
/// top-level JSON kind picks single record against batch, and a body that
/// cannot be decoded in the shape the status calls for yields the synthetic
/// parse-failure error.
pub fn classify_response(status_code: u16, body: &str) -> (r: Result<
    OrthancUploadResponse,
    OrthancErrorResponse,
>)
    ensures
        classifies(status_code, json_doc_of(body@), r),
        r is Ok ==> status_is_success_spec(status_code),
        !status_is_success_spec(status_code) ==> r is Err,
{
    let doc = match parse_doc(body) {
        Some(doc) => doc,
        None => {
            return Err(OrthancErrorResponse::failed_to_parse());
        },
    };
    if status_is_success(status_code) {
        match doc {
            JsonDoc::Object(obj) => match decode_single(&obj) {
                Some(record) => Ok(OrthancUploadResponse::OrthancDicomUploadResponse(record)),
                None => Err(OrthancErrorResponse::failed_to_parse()),
            },
            JsonDoc::Array(items) => match decode_folder(&items) {
                Some(records) => Ok(OrthancUploadResponse::OrthancFolderUploadResponse(records)),
                None => Err(OrthancErrorResponse::failed_to_parse()),
            },
            JsonDoc::Other => Err(OrthancErrorResponse::failed_to_parse()),
        }
    } else {
        match doc {
            JsonDoc::Object(obj) => match decode_error(&obj) {
                Some(e) => Err(e),
                None => Err(OrthancErrorResponse::failed_to_parse()),
            },
            _ => Err(OrthancErrorResponse::failed_to_parse()),
        }
    }
}

// ---------------------------------------------------------------------------
// The worker's other decisions
// ---------------------------------------------------------------------------

/// The endpoint one file's bytes are posted to, under the server's base URL.
pub fn instances_url(base_url: &str) -> (r: String)
    ensures
        r@ == base_url@ + "/instances"@,
{
    let mut r = String::from_str(base_url);
    r.append("/instances");
    r
}

/// Whether a request carries HTTP Basic authentication: only when both a
/// username and a password are configured.
pub fn use_basic_auth(username: &Option<String>, password: &Option<String>) -> (r: bool)
    ensures
        r == (username is Some && password is Some),
{
    username.is_some() && password.is_some()
}

/// The notice printed for a path the history already holds; no upload result
/// is produced for it.
pub fn skipped_line(path: &str) -> (r: String)
    ensures
        r@ == path@ + " skipped"@,
{
    let mut r = String::from_str(path);
    r.append(" skipped");
    r
}


} // verus!
