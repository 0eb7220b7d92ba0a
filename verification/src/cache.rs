use vstd::prelude::*;

use crate::path_set::PathSet;
use crate::text::clean_path;
use crate::text::join_lines;
use crate::text::lemma_lines_round_trip;
use crate::text::lex_leq_fn;
use crate::text::parse_lines;
use crate::text::parsed_paths;
use crate::text::render_lines;
use crate::text::sort_strings;
use crate::text::views_of;

verus! {

/// A plain set of paths saved to and loaded from a sorted, newline-delimited
/// text. Unlike the upload history, whose log only ever grows by appended
/// lines, the whole text is rewritten on every save.
#[derive(Clone)]
pub struct Cache {
    pub paths: PathSet,
}

impl Cache {
    /// Whether every path survives the line format unchanged: non-empty,
    /// holding no newline, with no space at either end.
    pub open spec fn all_clean(&self) -> bool {
        forall|p: Seq<char>| #[trigger] self.paths@.contains(p) ==> clean_path(p)
    }

    /// Loads a cache from the text of its file: one path per line, trimmed,
    /// blank lines ignored. A missing file is an empty text, not an error.
    pub fn from_text(text: &str) -> (r: Cache)
        requires
            text@.len() < usize::MAX,
        ensures
            r.paths@ == parsed_paths(text@).to_set(),
            r.paths.wf(),
    {
        let lines = parse_lines(text);
        Cache { paths: PathSet::from_lines(&lines) }
    }

    /// Renders the cache for its file: exactly the members in sorted order,
    /// one per line, a newline after each, and nothing else. Loading the
    /// rendered text back yields the same set of paths, whatever order they
    /// were inserted in.
    pub fn save_to_text(&self) -> (r: String)
        ensures
            r@ == join_lines(self.paths.members_in_order().sort_by(lex_leq_fn())),
            self.all_clean() ==> parsed_paths(r@).to_set() == self.paths@,
            self.all_clean() ==> vstd::relations::sorted_by(parsed_paths(r@), lex_leq_fn()),
    {
        let sorted = sort_strings(self.paths.as_vec());
        let r = render_lines(&sorted);
        proof {
            broadcast use vstd::seq_lib::group_to_multiset_ensures;

            let q = views_of(sorted@);
            let members = self.paths.members_in_order();
            self.paths.lemma_members_give_set();
            if self.all_clean() {
                assert forall|i: int| 0 <= i < q.len() implies clean_path(#[trigger] q[i]) by {
                    assert(q.to_multiset().count(q[i]) > 0);
                    assert(members.to_multiset().count(q[i]) > 0);
                    assert(members.contains(q[i]));
                    assert(members.to_set().contains(q[i]));
                }
                lemma_lines_round_trip(q);
                assert(parsed_paths(r@) == q);
                assert forall|x: Seq<char>|
                    q.to_set().contains(x) <==> self.paths@.contains(x) by {
                    if q.contains(x) {
                        assert(q.to_multiset().count(x) > 0);
                        assert(members.to_multiset().count(x) > 0);
                        assert(members.contains(x));
                    }
                    if members.contains(x) {
                        assert(members.to_multiset().count(x) > 0);
                        assert(q.to_multiset().count(x) > 0);
                        assert(q.contains(x));
                    }
                }
                assert(parsed_paths(r@).to_set() =~= self.paths@);
            }
        }
        r
    }
}

} // verus!
