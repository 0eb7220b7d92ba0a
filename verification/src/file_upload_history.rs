use vstd::prelude::*;

use crate::path_set::PathSet;
use crate::text::clean_path;
use crate::text::join_lines;
use crate::text::lemma_join_lines_concat;
use crate::text::lemma_lines_round_trip;
use crate::text::parse_lines;
use crate::text::parsed_paths;

verus! {

/// The deduplication history queried and updated by the upload workers.
/// `on_success` yields the line to append to the durable log, so that the
/// in-memory set and the log never diverge.
pub trait FileUploadHistory: Sized {
    /// Whether this history persists anything at all.
    spec fn tracking_enabled(&self) -> bool;

    /// The set of paths recorded so far.
    spec fn recorded(&self) -> Set<Seq<char>>;

    /// The history's internal well-formedness.
    spec fn inv(&self) -> bool;

    /// Whether `path` was recorded by an earlier confirmed upload.
    fn already_uploaded(&self, path: &str) -> (r: bool)
        requires
            self.inv(),
        ensures
            r == self.recorded().contains(path@),
    ;

    /// Records a confirmed upload of `path`. Returns the line to append to
    /// the durable log, exactly when this history tracks anything.
    fn on_success(&mut self, path: &str) -> (line: Option<String>)
        requires
            old(self).inv(),
        ensures
            final(self).inv(),
            final(self).tracking_enabled() == old(self).tracking_enabled(),
            final(self).recorded() == (if old(self).tracking_enabled() {
                old(self).recorded().insert(path@)
            } else {
                old(self).recorded()
            }),
            (line is Some) == old(self).tracking_enabled(),
            line matches Some(l) ==> l@ == path@ + seq!['\n'],
    ;
}

/// The history used when no cache path is configured: nothing is recorded.
pub struct DisabledFileUploadHistory;

impl FileUploadHistory for DisabledFileUploadHistory {
    open spec fn tracking_enabled(&self) -> bool {
        false
    }

    open spec fn recorded(&self) -> Set<Seq<char>> {
        Set::<Seq<char>>::empty()
    }

    open spec fn inv(&self) -> bool {
        true
    }

    fn already_uploaded(&self, path: &str) -> (r: bool) {
        proof {
            assert(!Set::<Seq<char>>::empty().contains(path@));
        }
        false
    }

    fn on_success(&mut self, path: &str) -> (line: Option<String>) {
        None
    }
}

/// With the disabled history no path ever counts as already uploaded.
pub proof fn lemma_disabled_never_uploaded(h: DisabledFileUploadHistory, path: Seq<char>)
    ensures
        !h.recorded().contains(path),
{
}

/// The persistent history: an in-memory set loaded from a newline-delimited
/// log file, with each confirmed upload appended as one line.
pub struct TextFileUploadHistory {
    history_path: String,
    paths: PathSet,
}

impl TextFileUploadHistory {
    /// The path of the log file behind this history.
    pub closed spec fn spec_history_path(&self) -> Seq<char> {
        self.history_path@
    }

    /// Builds the history from the text of its log file: one recorded path
    /// per line, trimmed, blank lines ignored. A missing file is an empty
    /// text, not an error.
    pub fn from_text(history_path: &str, text: &str) -> (r: TextFileUploadHistory)
        requires
            text@.len() < usize::MAX,
        ensures
            r.inv(),
            r.recorded() == parsed_paths(text@).to_set(),
            r.spec_history_path() == history_path@,
    {
        let lines = parse_lines(text);
        let paths = PathSet::from_lines(&lines);
        TextFileUploadHistory { history_path: String::from_str(history_path), paths }
    }

    /// The path of the log file, for the caller that appends to it.
    pub fn history_path(&self) -> (r: &String)
        ensures
            r@ == self.spec_history_path(),
    {
        &self.history_path
    }
}

impl FileUploadHistory for TextFileUploadHistory {
    open spec fn tracking_enabled(&self) -> bool {
        true
    }

    closed spec fn recorded(&self) -> Set<Seq<char>> {
        self.paths@
    }

    closed spec fn inv(&self) -> bool {
        self.paths.wf()
    }

    fn already_uploaded(&self, path: &str) -> (r: bool) {
        self.paths.contains(path)
    }

    fn on_success(&mut self, path: &str) -> (line: Option<String>) {
        self.paths.insert(path);
        let mut line = String::from_str(path);
        line.append("\n");
        proof {
            reveal_strlit("\n");
            assert("\n"@ =~= seq!['\n']);
        }
        Some(line)
    }
}

/// The set recorded after a run that confirms the uploads in `uploaded`, in
/// order, starting from the history set `h`.
pub open spec fn record_all(h: Set<Seq<char>>, uploaded: Seq<Seq<char>>) -> Set<Seq<char>>
    decreases uploaded.len(),
{
    if uploaded.len() == 0 {
        h
    } else {
        record_all(h.insert(uploaded[0]), uploaded.drop_first())
    }
}

proof fn lemma_record_all_extends(h: Set<Seq<char>>, uploaded: Seq<Seq<char>>, x: Seq<char>)
    requires
        h.contains(x),
    ensures
        record_all(h, uploaded).contains(x),
    decreases uploaded.len(),
{
    if uploaded.len() > 0 {
        lemma_record_all_extends(h.insert(uploaded[0]), uploaded.drop_first(), x);
    }
}

proof fn lemma_record_all_records(h: Set<Seq<char>>, uploaded: Seq<Seq<char>>, i: int)
    requires
        0 <= i < uploaded.len(),
    ensures
        record_all(h, uploaded).contains(uploaded[i]),
    decreases uploaded.len(),
{
    if i == 0 {
        lemma_record_all_extends(h.insert(uploaded[0]), uploaded.drop_first(), uploaded[0]);
    } else {
        lemma_record_all_records(h.insert(uploaded[0]), uploaded.drop_first(), i - 1);
        assert(uploaded.drop_first()[i - 1] == uploaded[i]);
    }
}

proof fn lemma_record_all_noop(h: Set<Seq<char>>, uploaded: Seq<Seq<char>>)
    requires
        forall|i: int| 0 <= i < uploaded.len() ==> h.contains(#[trigger] uploaded[i]),
    ensures
        record_all(h, uploaded) == h,
    decreases uploaded.len(),
{
    if uploaded.len() > 0 {
        assert(h.insert(uploaded[0]) =~= h);
        assert(forall|i: int|
            0 <= i < uploaded.drop_first().len() ==> h.contains(
                #[trigger] uploaded.drop_first()[i],
            ));
        lemma_record_all_noop(h, uploaded.drop_first());
    }
}

/// Recording paths adds exactly those paths to the history set.
pub proof fn lemma_record_all_union(h: Set<Seq<char>>, uploaded: Seq<Seq<char>>)
    ensures
        record_all(h, uploaded) == h.union(uploaded.to_set()),
    decreases uploaded.len(),
{
    if uploaded.len() == 0 {
        assert(record_all(h, uploaded) =~= h.union(uploaded.to_set()));
    } else {
        lemma_record_all_union(h.insert(uploaded[0]), uploaded.drop_first());
        assert forall|x: Seq<char>|
            uploaded.contains(x) <==> (x == uploaded[0] || uploaded.drop_first().contains(x)) by {
            if uploaded.contains(x) {
                let k = choose|k: int| 0 <= k < uploaded.len() && #[trigger] uploaded[k] == x;
                if k > 0 {
                    assert(uploaded.drop_first()[k - 1] == x);
                }
            }
            if uploaded.drop_first().contains(x) {
                let k = choose|k: int|
                    0 <= k < uploaded.drop_first().len() && #[trigger] uploaded.drop_first()[k]
                        == x;
                assert(uploaded[k + 1] == x);
            }
        }
        assert(record_all(h, uploaded) =~= h.union(uploaded.to_set()));
    }
}

/// The log grown by appending one line per confirmed clean path loads back
/// to exactly the set of those paths, so a later run skips each of them.
pub proof fn lemma_log_round_trip(ps: Seq<Seq<char>>)
    requires
        forall|i: int| 0 <= i < ps.len() ==> clean_path(#[trigger] ps[i]),
    ensures
        parsed_paths(join_lines(ps)).to_set() == ps.to_set(),
{
    lemma_lines_round_trip(ps);
}

/// Appending one line per confirmed clean path to a log that itself renders
/// clean paths loads back to the union: the loaded set plus the new paths.
/// Duplicate lines never enlarge the loaded set.
pub proof fn lemma_log_append(qs: Seq<Seq<char>>, ps: Seq<Seq<char>>)
    requires
        forall|i: int| 0 <= i < qs.len() ==> clean_path(#[trigger] qs[i]),
        forall|i: int| 0 <= i < ps.len() ==> clean_path(#[trigger] ps[i]),
    ensures
        parsed_paths(join_lines(qs) + join_lines(ps)).to_set() == qs.to_set().union(ps.to_set()),
{
    lemma_join_lines_concat(qs, ps);
    assert forall|i: int| 0 <= i < (qs + ps).len() implies clean_path(#[trigger] (qs + ps)[i]) by {
        if i < qs.len() {
            assert((qs + ps)[i] == qs[i]);
        } else {
            assert((qs + ps)[i] == ps[i - qs.len()]);
        }
    }
    lemma_lines_round_trip(qs + ps);
    assert forall|x: Seq<char>|
        (qs + ps).contains(x) <==> (qs.contains(x) || ps.contains(x)) by {
        if (qs + ps).contains(x) {
            let k = choose|k: int| 0 <= k < (qs + ps).len() && #[trigger] (qs + ps)[k] == x;
            if k < qs.len() {
                assert(qs[k] == x);
            } else {
                assert(ps[k - qs.len()] == x);
            }
        }
        if qs.contains(x) {
            let k = choose|k: int| 0 <= k < qs.len() && #[trigger] qs[k] == x;
            assert((qs + ps)[k] == x);
        }
        if ps.contains(x) {
            let k = choose|k: int| 0 <= k < ps.len() && #[trigger] ps[k] == x;
            assert((qs + ps)[k + qs.len()] == x);
        }
    }
    assert(parsed_paths(join_lines(qs) + join_lines(ps)).to_set() =~= qs.to_set().union(
        ps.to_set(),
    ));
}

/// Idempotence of the history: after a run records the confirmed paths,
/// every one of them is already recorded when a second run begins, so the
/// second run skips each of them; and recording the same paths again leaves
/// the history set exactly as it was.
pub proof fn lemma_history_idempotent(h: Set<Seq<char>>, uploaded: Seq<Seq<char>>)
    ensures
        forall|i: int|
            0 <= i < uploaded.len() ==> record_all(h, uploaded).contains(#[trigger] uploaded[i]),
        record_all(record_all(h, uploaded), uploaded) == record_all(h, uploaded),
{
    assert forall|i: int| 0 <= i < uploaded.len() implies record_all(h, uploaded).contains(
        #[trigger] uploaded[i],
    ) by {
        lemma_record_all_records(h, uploaded, i);
    }
    lemma_record_all_noop(record_all(h, uploaded), uploaded);
}

} // verus!
