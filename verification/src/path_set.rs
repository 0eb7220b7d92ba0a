use vstd::prelude::*;

use crate::text::str_eq;
use crate::text::views_of;

verus! {

/// A set of path strings, held as a vector with each member stored once.
#[derive(Clone)]
pub struct PathSet {
    paths: Vec<String>,
}

impl View for PathSet {
    type V = Set<Seq<char>>;

    closed spec fn view(&self) -> Set<Seq<char>> {
        views_of(self.paths@).to_set()
    }
}

impl PathSet {
    /// The members in the order they were first inserted.
    pub closed spec fn members_in_order(&self) -> Seq<Seq<char>> {
        views_of(self.paths@)
    }

    /// Each member is held exactly once.
    pub closed spec fn wf(&self) -> bool {
        forall|i: int, j: int|
            0 <= i < j < self.paths@.len() ==> self.paths@[i]@ != self.paths@[j]@
    }

    pub proof fn lemma_members_give_set(&self)
        ensures
            self@ == self.members_in_order().to_set(),
    {
    }

    /// A well-formed set holds each member exactly once.
    pub proof fn lemma_members_unique(&self)
        requires
            self.wf(),
        ensures
            self.members_in_order().no_duplicates(),
    {
    }

    /// The empty set.
    pub fn new() -> (r: PathSet)
        ensures
            r@ == Set::<Seq<char>>::empty(),
            r.wf(),
    {
        let r = PathSet { paths: Vec::new() };
        proof {
            assert(views_of(r.paths@) =~= Seq::<Seq<char>>::empty());
            assert(r@ =~= Set::<Seq<char>>::empty());
        }
        r
    }

    /// Whether `path` is a member.
    pub fn contains(&self, path: &str) -> (r: bool)
        ensures
            r == self@.contains(path@),
    {
        let mut i: usize = 0;
        while i < self.paths.len()
            invariant
                i <= self.paths@.len(),
                forall|j: int| 0 <= j < i ==> views_of(self.paths@)[j] != path@,
            decreases self.paths@.len() - i,
        {
            if str_eq(self.paths[i].as_str(), path) {
                proof {
                    assert(views_of(self.paths@)[i as int] == path@);
                    assert(views_of(self.paths@).contains(path@));
                }
                return true;
            }
            i = i + 1;
        }
        proof {
            assert(!views_of(self.paths@).contains(path@));
        }
        false
    }

    /// Inserts `path`; a member already present is left alone.
    pub fn insert(&mut self, path: &str)
        requires
            old(self).wf(),
        ensures
            final(self)@ == old(self)@.insert(path@),
            final(self).wf(),
    {
        let present = self.contains(path);
        if !present {
            self.paths.push(String::from_str(path));
            proof {
                let old_views = views_of(old(self).paths@);
                let new_views = views_of(self.paths@);
                assert(new_views =~= old_views.push(path@));
                assert forall|x: Seq<char>| new_views.contains(x) <==> (old_views.contains(x) || x
                    == path@) by {
                    if new_views.contains(x) {
                        let k = choose|k: int| 0 <= k < new_views.len() && new_views[k] == x;
                        if k < old_views.len() {
                            assert(old_views[k] == x);
                        }
                    }
                    if old_views.contains(x) {
                        let k = choose|k: int| 0 <= k < old_views.len() && old_views[k] == x;
                        assert(new_views[k] == x);
                    }
                    if x == path@ {
                        assert(new_views[new_views.len() - 1] == x);
                    }
                }
                assert(self@ =~= old(self)@.insert(path@));
                assert forall|i: int, j: int|
                    0 <= i < j < self.paths@.len() implies self.paths@[i]@ != self.paths@[j]@ by {
                    if j == self.paths@.len() - 1 {
                        assert(old_views[i] == self.paths@[i]@);
                        assert(!old_views.contains(path@));
                    }
                }
            }
        } else {
            proof {
                assert(self@ =~= old(self)@.insert(path@));
            }
        }
    }

    /// How many members the set holds.
    pub fn len(&self) -> (r: usize)
        requires
            self.wf(),
        ensures
            r == self@.len(),
    {
        let r = self.paths.len();
        proof {
            let vs = views_of(self.paths@);
            assert(vs.no_duplicates());
            vs.unique_seq_to_set();
        }
        r
    }

    /// The set holding each of the given strings.
    pub fn from_lines(lines: &Vec<String>) -> (r: PathSet)
        ensures
            r@ == views_of(lines@).to_set(),
            r.wf(),
    {
        let mut r = PathSet::new();
        let mut i: usize = 0;
        proof {
            assert(views_of(lines@).take(0) =~= Seq::<Seq<char>>::empty());
            assert(r@ =~= views_of(lines@).take(0).to_set());
        }
        while i < lines.len()
            invariant
                i <= lines@.len(),
                r.wf(),
                r@ == views_of(lines@).take(i as int).to_set(),
            decreases lines@.len() - i,
        {
            r.insert(lines[i].as_str());
            proof {
                let vs = views_of(lines@);
                assert(vs.take(i + 1).drop_last() =~= vs.take(i as int));
                assert(vs.take(i + 1).last() == vs[i as int]);
                assert forall|x: Seq<char>|
                    vs.take(i + 1).contains(x) <==> (vs.take(i as int).contains(x) || x
                        == vs[i as int]) by {
                    if vs.take(i + 1).contains(x) {
                        let k = choose|k: int|
                            0 <= k < i + 1 && #[trigger] vs.take(i + 1)[k] == x;
                        if k < i {
                            assert(vs.take(i as int)[k] == x);
                        }
                    }
                    if vs.take(i as int).contains(x) {
                        let k = choose|k: int| 0 <= k < i && #[trigger] vs.take(i as int)[k] == x;
                        assert(vs.take(i + 1)[k] == x);
                    }
                    if x == vs[i as int] {
                        assert(vs.take(i + 1)[i as int] == x);
                    }
                }
                assert(r@ =~= vs.take(i + 1).to_set());
            }
            i = i + 1;
        }
        proof {
            assert(views_of(lines@).take(lines@.len() as int) =~= views_of(lines@));
        }
        r
    }

    /// The members as a vector, each exactly once.
    pub fn as_vec(&self) -> (r: &Vec<String>)
        ensures
            views_of(r@) == self.members_in_order(),
            views_of(r@).to_set() == self@,
    {
        &self.paths
    }
}

} // verus!
