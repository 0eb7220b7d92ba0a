use vstd::prelude::*;

verus! {

/// Per-item status reported by the archive server for one stored record.
#[derive(Clone, Copy, PartialEq, Eq, Structural, Debug)]
pub enum OrthancUploadStatus {
    AlreadyStored,
    Success,
}

pub open spec fn status_message_spec(s: OrthancUploadStatus) -> Seq<char> {
    match s {
        OrthancUploadStatus::AlreadyStored => "Already Stored"@,
        OrthancUploadStatus::Success => "Success"@,
    }
}

impl OrthancUploadStatus {
    /// The human-readable message for this status.
    pub fn message(&self) -> (r: String)
        ensures
            r@ == status_message_spec(*self),
    {
        match self {
            OrthancUploadStatus::AlreadyStored => String::from_str("Already Stored"),
            OrthancUploadStatus::Success => String::from_str("Success"),
        }
    }
}

/// One archived item as the server describes it.
pub struct OrthancDicomUploadResponse {
    pub id: String,
    pub parent_patient: String,
    pub parent_series: String,
    pub parent_study: String,
    pub path: String,
    pub status: OrthancUploadStatus,
}

/// A success reply: either one archived item, or a batch of them
/// (an archive holding several items, each marked new or duplicate).
pub enum OrthancUploadResponse {
    OrthancDicomUploadResponse(OrthancDicomUploadResponse),
    OrthancFolderUploadResponse(Vec<OrthancDicomUploadResponse>),
}

/// A failure reply, or the synthetic value built when a body cannot be decoded.
pub struct OrthancErrorResponse {
    pub details: String,
    pub http_error: String,
    pub http_status: u32,
    pub message: String,
    pub method: String,
    pub orthanc_error: String,
    pub orthanc_status: i64,
    pub uri: String,
}

// ---------------------------------------------------------------------------
// Decimal rendering
// ---------------------------------------------------------------------------

pub open spec fn digit_char(d: nat) -> char {
    if d == 0 {
        '0'
    } else if d == 1 {
        '1'
    } else if d == 2 {
        '2'
    } else if d == 3 {
        '3'
    } else if d == 4 {
        '4'
    } else if d == 5 {
        '5'
    } else if d == 6 {
        '6'
    } else if d == 7 {
        '7'
    } else if d == 8 {
        '8'
    } else {
        '9'
    }
}

/// The usual base-ten rendering of `n`, most significant digit first.
pub open spec fn dec_seq(n: nat) -> Seq<char>
    decreases n,
{
    if n < 10 {
        seq![digit_char(n)]
    } else {
        dec_seq(n / 10).push(digit_char(n % 10))
    }
}

/// The base-ten rendering of a signed value: a minus sign before the
/// magnitude when the value is negative.
pub open spec fn dec_seq_signed(n: int) -> Seq<char> {
    if n < 0 {
        "-"@ + dec_seq((-n) as nat)
    } else {
        dec_seq(n as nat)
    }
}

fn digit_str(d: u64) -> (r: String)
    requires
        d < 10,
    ensures
        r@ == seq![digit_char(d as nat)],
{
    let r = match d {
        0 => String::from_str("0"),
        1 => String::from_str("1"),
        2 => String::from_str("2"),
        3 => String::from_str("3"),
        4 => String::from_str("4"),
        5 => String::from_str("5"),
        6 => String::from_str("6"),
        7 => String::from_str("7"),
        8 => String::from_str("8"),
        _ => String::from_str("9"),
    };
    proof {
        reveal_strlit("0");
        reveal_strlit("1");
        reveal_strlit("2");
        reveal_strlit("3");
        reveal_strlit("4");
        reveal_strlit("5");
        reveal_strlit("6");
        reveal_strlit("7");
        reveal_strlit("8");
        reveal_strlit("9");
        assert(r@ =~= seq![digit_char(d as nat)]);
    }
    r
}

/// Renders `n` in base ten.
pub fn u64_to_string(n: u64) -> (r: String)
    ensures
        r@ == dec_seq(n as nat),
    decreases n,
{
    if n < 10 {
        digit_str(n)
    } else {
        let mut r = u64_to_string(n / 10);
        let d = digit_str(n % 10);
        r.append(d.as_str());
        proof {
            assert(r@ =~= dec_seq(n as nat));
        }
        r
    }
}

/// Renders `n` in base ten.
pub fn usize_to_string(n: usize) -> (r: String)
    ensures
        r@ == dec_seq(n as nat),
{
    u64_to_string(n as u64)
}

/// Renders a signed value in base ten.
pub fn i64_to_string(n: i64) -> (r: String)
    ensures
        r@ == dec_seq_signed(n as int),
{
    if n >= 0 {
        u64_to_string(n as u64)
    } else {
        let wide: i128 = n as i128;
        let mag: u64 = (-wide) as u64;
        let mut r = String::from_str("-");
        let m = u64_to_string(mag);
        r.append(m.as_str());
        r
    }
}

// ---------------------------------------------------------------------------
// Success message
// ---------------------------------------------------------------------------

/// How many records in `s` the server stored as new.
pub open spec fn count_success(s: Seq<OrthancDicomUploadResponse>) -> nat
    decreases s.len(),
{
    if s.len() == 0 {
        0
    } else {
        count_success(s.drop_last()) + (if s.last().status is Success {
            1nat
        } else {
            0nat
        })
    }
}

/// The one-line summary for a success reply: the status message for a single
/// item, and `(new/total) (New/Total)` for a batch.
pub open spec fn success_message_spec(r: OrthancUploadResponse) -> Seq<char> {
    match r {
        OrthancUploadResponse::OrthancDicomUploadResponse(inner) => status_message_spec(
            inner.status,
        ),
        OrthancUploadResponse::OrthancFolderUploadResponse(inner) => "("@ + dec_seq(
            count_success(inner@),
        ) + "/"@ + dec_seq(inner@.len()) + ") (New/Total)"@,
    }
}

proof fn lemma_count_success_take_step(s: Seq<OrthancDicomUploadResponse>, i: int)
    requires
        0 <= i < s.len(),
    ensures
        count_success(s.take(i + 1)) == count_success(s.take(i)) + (if s[i].status is Success {
            1nat
        } else {
            0nat
        }),
{
    assert(s.take(i + 1).drop_last() =~= s.take(i));
    assert(s.take(i + 1).last() == s[i]);
}

impl OrthancUploadResponse {
    /// The one-line summary printed beside a path on success.
    pub fn success_message(&self) -> (r: String)
        ensures
            r@ == success_message_spec(*self),
    {
        match self {
            OrthancUploadResponse::OrthancDicomUploadResponse(inner) => inner.status.message(),
            OrthancUploadResponse::OrthancFolderUploadResponse(inner) => {
                let mut new_count: usize = 0;
                let mut i: usize = 0;
                while i < inner.len()
                    invariant
                        i <= inner.len(),
                        new_count <= i,
                        new_count == count_success(inner@.take(i as int)),
                    decreases inner.len() - i,
                {
                    proof {
                        lemma_count_success_take_step(inner@, i as int);
                    }
                    if matches!(inner[i].status, OrthancUploadStatus::Success) {
                        new_count = new_count + 1;
                    }
                    i = i + 1;
                }
                proof {
                    assert(inner@.take(inner@.len() as int) =~= inner@);
                }
                let total: usize = inner.len();
                let mut r = String::from_str("(");
                let new_str = usize_to_string(new_count);
                r.append(new_str.as_str());
                r.append("/");
                let total_str = usize_to_string(total);
                r.append(total_str.as_str());
                r.append(") (New/Total)");
                r
            },
        }
    }
}

// ---------------------------------------------------------------------------
// Synthetic error
// ---------------------------------------------------------------------------

/// Whether `e` is the synthetic value built when a reply body cannot be
/// decoded: the details say so and every other field is empty or zero.
pub open spec fn is_failed_to_parse(e: OrthancErrorResponse) -> bool {
    &&& e.details@ == "Failed to parse"@
    &&& e.http_error@ == Seq::<char>::empty()
    &&& e.http_status == 0
    &&& e.message@ == Seq::<char>::empty()
    &&& e.method@ == Seq::<char>::empty()
    &&& e.orthanc_error@ == Seq::<char>::empty()
    &&& e.orthanc_status == 0
    &&& e.uri@ == Seq::<char>::empty()
}

impl OrthancErrorResponse {
    /// The synthetic error used when a reply body cannot be decoded.
    pub fn failed_to_parse() -> (r: OrthancErrorResponse)
        ensures
            is_failed_to_parse(r),
    {
        OrthancErrorResponse {
            details: String::from_str("Failed to parse"),
            http_error: String::new(),
            http_status: 0,
            message: String::new(),
            method: String::new(),
            orthanc_error: String::new(),
            orthanc_status: 0,
            uri: String::new(),
        }
    }
}

// ---------------------------------------------------------------------------
// Multi-line renderings (the full dumps printed in verbose or error output)
// ---------------------------------------------------------------------------

/// The full multi-line rendering of one archived item.
pub open spec fn dicom_render_spec(r: OrthancDicomUploadResponse) -> Seq<char> {
    "OrthancUploadResponse:\n    ID: "@ + r.id@ + "\n    Orthanc Patient ID: "@
        + r.parent_patient@ + "\n    Orthanc Series ID: "@ + r.parent_series@
        + "\n    Orthanc Study ID: "@ + r.parent_study@ + "\n    Stored Path: "@ + r.path@
        + "\n    Status: "@ + status_message_spec(r.status)
}

/// Batch renderings joined by single newlines.
pub open spec fn folder_render_spec(s: Seq<OrthancDicomUploadResponse>) -> Seq<char>
    decreases s.len(),
{
    if s.len() == 0 {
        Seq::<char>::empty()
    } else if s.len() == 1 {
        dicom_render_spec(s[0])
    } else {
        folder_render_spec(s.drop_last()) + "\n"@ + dicom_render_spec(s.last())
    }
}

/// The full multi-line rendering of a success reply.
pub open spec fn upload_render_spec(r: OrthancUploadResponse) -> Seq<char> {
    match r {
        OrthancUploadResponse::OrthancDicomUploadResponse(inner) => dicom_render_spec(inner),
        OrthancUploadResponse::OrthancFolderUploadResponse(inner) => folder_render_spec(inner@),
    }
}

/// The full multi-line rendering of an error reply.
pub open spec fn error_render_spec(e: OrthancErrorResponse) -> Seq<char> {
    "OrthancErrorResponse:\n    Details: "@ + e.details@ + "\n    Http Error: "@ + e.http_error@
        + "\n    Http Status: "@ + dec_seq(e.http_status as nat) + "\n    Message: "@ + e.message@
        + "\n    Method: "@ + e.method@ + "\n    Orthanc Error: "@ + e.orthanc_error@
        + "\n    Orthanc Status: "@ + dec_seq_signed(e.orthanc_status as int) + "\n    Uri: "@
        + e.uri@
}

impl OrthancDicomUploadResponse {
    /// The full multi-line rendering of this item.
    pub fn render(&self) -> (r: String)
        ensures
            r@ == dicom_render_spec(*self),
    {
        let mut r = String::from_str("OrthancUploadResponse:\n    ID: ");
        r.append(self.id.as_str());
        r.append("\n    Orthanc Patient ID: ");
        r.append(self.parent_patient.as_str());
        r.append("\n    Orthanc Series ID: ");
        r.append(self.parent_series.as_str());
        r.append("\n    Orthanc Study ID: ");
        r.append(self.parent_study.as_str());
        r.append("\n    Stored Path: ");
        r.append(self.path.as_str());
        r.append("\n    Status: ");
        let status_str = self.status.message();
        r.append(status_str.as_str());
        r
    }
}

impl OrthancUploadResponse {
    /// The full multi-line rendering of this reply.
    pub fn render(&self) -> (r: String)
        ensures
            r@ == upload_render_spec(*self),
    {
        match self {
            OrthancUploadResponse::OrthancDicomUploadResponse(inner) => inner.render(),
            OrthancUploadResponse::OrthancFolderUploadResponse(inner) => {
                let mut r = String::new();
                let mut i: usize = 0;
                while i < inner.len()
                    invariant
                        i <= inner.len(),
                        r@ == folder_render_spec(inner@.take(i as int)),
                    decreases inner.len() - i,
                {
                    if i > 0 {
                        r.append("\n");
                    }
                    let item = inner[i].render();
                    r.append(item.as_str());
                    proof {
                        assert(inner@.take(i + 1).drop_last() =~= inner@.take(i as int));
                        assert(inner@.take(i + 1).last() == inner@[i as int]);
                        if i == 0 {
                            assert(r@ =~= folder_render_spec(inner@.take(i + 1)));
                        }
                    }
                    i = i + 1;
                }
                proof {
                    assert(inner@.take(inner@.len() as int) =~= inner@);
                }
                r
            },
        }
    }
}

impl OrthancErrorResponse {
    /// The full multi-line rendering of this error.
    pub fn render(&self) -> (r: String)
        ensures
            r@ == error_render_spec(*self),
    {
        let mut r = String::from_str("OrthancErrorResponse:\n    Details: ");
        r.append(self.details.as_str());
        r.append("\n    Http Error: ");
        r.append(self.http_error.as_str());
        r.append("\n    Http Status: ");
        let http_status_str = u64_to_string(self.http_status as u64);
        r.append(http_status_str.as_str());
        r.append("\n    Message: ");
        r.append(self.message.as_str());
        r.append("\n    Method: ");
        r.append(self.method.as_str());
        r.append("\n    Orthanc Error: ");
        r.append(self.orthanc_error.as_str());
        r.append("\n    Orthanc Status: ");
        let orthanc_status_str = i64_to_string(self.orthanc_status);
        r.append(orthanc_status_str.as_str());
        r.append("\n    Uri: ");
        r.append(self.uri.as_str());
        r
    }
}

} // verus!
