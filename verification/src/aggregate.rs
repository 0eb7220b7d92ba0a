use vstd::prelude::*;

use crate::file_upload_history::FileUploadHistory;
use crate::file_upload_history::lemma_record_all_union;
use crate::file_upload_history::record_all;
use crate::orthanc_types::dec_seq;
use crate::orthanc_types::error_render_spec;
use crate::orthanc_types::success_message_spec;
use crate::orthanc_types::u64_to_string;
use crate::orthanc_types::upload_render_spec;
use crate::upload::UploadResult;

verus! {

/// What the aggregator emits for one upload result: the line always printed,
/// the full rendering when it is wanted, and the line for the history log.
pub struct RecordOutput {
    pub line: String,
    pub dump: Option<String>,
    pub log_line: Option<String>,
}

/// Running totals of successes and failures.
pub struct Tally {
    pub successes: u64,
    pub failures: u64,
}

impl Tally {
    /// Both totals start at zero.
    pub fn new() -> (r: Tally)
        ensures
            r.successes == 0,
            r.failures == 0,
    {
        Tally { successes: 0, failures: 0 }
    }

    /// Handles one upload result: a success is recorded in the history and
    /// counted, a failure only counted. The printed line pairs the path with
    /// the derived success message or the word for an error; the full
    /// rendering is handed back exactly when verbose output is on or the
    /// outcome is an error.
    pub fn record<H: FileUploadHistory>(
        &mut self,
        history: &mut H,
        result: &UploadResult,
        verbose: bool,
    ) -> (out: RecordOutput)
        requires
            old(history).inv(),
            old(self).successes < u64::MAX,
            old(self).failures < u64::MAX,
        ensures
            final(history).inv(),
            final(history).tracking_enabled() == old(history).tracking_enabled(),
            result.response is Ok ==> final(self).successes == old(self).successes + 1
                && final(self).failures == old(self).failures,
            result.response is Err ==> final(self).failures == old(self).failures + 1
                && final(self).successes == old(self).successes,
            final(history).recorded() == (if result.response is Ok
                && old(history).tracking_enabled() {
                old(history).recorded().insert(result.path@)
            } else {
                old(history).recorded()
            }),
            out.line@ == result.path@ + ": "@ + (match result.response {
                Ok(resp) => success_message_spec(resp),
                Err(_) => "Error"@,
            }),
            (out.dump is Some) == (verbose || result.response is Err),
            out.dump matches Some(d) ==> d@ == (match result.response {
                Ok(resp) => upload_render_spec(resp),
                Err(e) => error_render_spec(e),
            }),
            (out.log_line is Some) == (result.response is Ok
                && old(history).tracking_enabled()),
            out.log_line matches Some(l) ==> l@ == result.path@ + seq!['\n'],
    {
        let mut log_line: Option<String> = None;
        let summary: String = match &result.response {
            Ok(resp) => {
                log_line = history.on_success(result.path.as_str());
                self.successes = self.successes + 1;
                resp.success_message()
            },
            Err(_) => {
                self.failures = self.failures + 1;
                String::from_str("Error")
            },
        };
        let dump: Option<String> = match &result.response {
            Ok(resp) => if verbose {
                Some(resp.render())
            } else {
                None
            },
            Err(e) => Some(e.render()),
        };
        let mut line = result.path.clone();
        line.append(": ");
        line.append(summary.as_str());
        RecordOutput { line, dump, log_line }
    }

    /// The two summary lines printed once the result queue is drained.
    pub fn summary(&self) -> (r: String)
        ensures
            r@ == "Successes: "@ + dec_seq(self.successes as nat) + seq!['\n'] + "Failures: "@
                + dec_seq(self.failures as nat),
    {
        let mut r = String::from_str("Successes: ");
        let s = u64_to_string(self.successes);
        r.append(s.as_str());
        r.append("\n");
        r.append("Failures: ");
        let f = u64_to_string(self.failures);
        r.append(f.as_str());
        proof {
            reveal_strlit("\n");
            assert("\n"@ =~= seq!['\n']);
            assert(r@ =~= "Successes: "@ + dec_seq(self.successes as nat) + seq!['\n']
                + "Failures: "@ + dec_seq(self.failures as nat));
        }
        r
    }
}

/// The paths of the results, in order.
pub open spec fn paths_of(results: Seq<UploadResult>) -> Seq<Seq<char>> {
    results.map_values(|r: UploadResult| r.path@)
}

/// How many of the results are successes.
pub open spec fn count_ok(results: Seq<UploadResult>) -> nat
    decreases results.len(),
{
    if results.len() == 0 {
        0
    } else {
        count_ok(results.drop_last()) + (if results.last().response is Ok {
            1nat
        } else {
            0nat
        })
    }
}

/// How many of the results are failures.
pub open spec fn count_err(results: Seq<UploadResult>) -> nat
    decreases results.len(),
{
    if results.len() == 0 {
        0
    } else {
        count_err(results.drop_last()) + (if results.last().response is Err {
            1nat
        } else {
            0nat
        })
    }
}

/// Completeness under success: when the server confirms every upload, the
/// tallies come to one success per result and no failures, and a history that
/// started empty records exactly the paths of the results.
pub proof fn lemma_completeness_under_success(results: Seq<UploadResult>)
    requires
        forall|i: int| 0 <= i < results.len() ==> (#[trigger] results[i].response) is Ok,
    ensures
        count_ok(results) == results.len(),
        count_err(results) == 0,
        record_all(Set::<Seq<char>>::empty(), paths_of(results)) == paths_of(results).to_set(),
    decreases results.len(),
{
    if results.len() > 0 {
        assert(results.last().response is Ok);
        lemma_completeness_under_success(results.drop_last());
    }
    lemma_record_all_union(Set::<Seq<char>>::empty(), paths_of(results));
    assert(Set::<Seq<char>>::empty().union(paths_of(results).to_set()) =~= paths_of(
        results,
    ).to_set());
}

} // verus!
