use vstd::prelude::*;

verus! {

/// The views of a sequence of owned strings.
pub open spec fn views_of(s: Seq<String>) -> Seq<Seq<char>> {
    s.map_values(|p: String| p@)
}

/// Character-wise equality of two string slices.
pub fn str_eq(a: &str, b: &str) -> (r: bool)
    ensures
        r == (a@ == b@),
{
    let alen = a.unicode_len();
    let blen = b.unicode_len();
    if alen != blen {
        proof {
            if a@ == b@ {
                assert(a@.len() == b@.len());
            }
        }
        return false;
    }
    let mut i: usize = 0;
    while i < alen
        invariant
            alen == a@.len(),
            blen == b@.len(),
            alen == blen,
            i <= alen,
            forall|j: int| 0 <= j < i ==> a@[j] == b@[j],
        decreases alen - i,
    {
        if a.get_char(i) != b.get_char(i) {
            return false;
        }
        i = i + 1;
    }
    proof {
        assert(a@ =~= b@);
    }
    true
}

// ---------------------------------------------------------------------------
// Whitespace and trimming
// ---------------------------------------------------------------------------

/// The whitespace characters stripped from the ends of a line.
pub open spec fn is_space(c: char) -> bool {
    c == ' ' || c == '\t' || c == '\r' || c == '\n'
}

fn is_space_char(c: char) -> (r: bool)
    ensures
        r == is_space(c),
{
    c == ' ' || c == '\t' || c == '\r' || c == '\n'
}

/// The first index at or after `i` holding a non-space character, or the length.
pub open spec fn first_nonspace(s: Seq<char>, i: int) -> int
    decreases s.len() - i,
{
    if i >= s.len() {
        s.len() as int
    } else if is_space(s[i]) {
        first_nonspace(s, i + 1)
    } else {
        i
    }
}

/// The index just after the last non-space character strictly before `j`, or zero.
pub open spec fn last_nonspace_end(s: Seq<char>, j: int) -> int
    decreases j,
{
    if j <= 0 {
        0
    } else if is_space(s[j - 1]) {
        last_nonspace_end(s, j - 1)
    } else {
        j
    }
}

/// `s` with the spaces at both ends stripped.
pub open spec fn trim_spec(s: Seq<char>) -> Seq<char> {
    let a = first_nonspace(s, 0);
    let b = last_nonspace_end(s, s.len() as int);
    if a < b {
        s.subrange(a, b)
    } else {
        Seq::<char>::empty()
    }
}

fn first_nonspace_exec(s: &str, i: usize) -> (r: usize)
    requires
        i <= s@.len(),
    ensures
        r as int == first_nonspace(s@, i as int),
        i <= r <= s@.len(),
    decreases s@.len() - i,
{
    let n = s.unicode_len();
    if i == n {
        i
    } else if is_space_char(s.get_char(i)) {
        first_nonspace_exec(s, i + 1)
    } else {
        i
    }
}

fn last_nonspace_end_exec(s: &str, j: usize) -> (r: usize)
    requires
        j <= s@.len(),
    ensures
        r as int == last_nonspace_end(s@, j as int),
        r <= j,
    decreases j,
{
    if j == 0 {
        0
    } else if is_space_char(s.get_char(j - 1)) {
        last_nonspace_end_exec(s, j - 1)
    } else {
        j
    }
}

/// Strips the spaces at both ends of `s`.
pub fn trim_to_string(s: &str) -> (r: String)
    ensures
        r@ == trim_spec(s@),
{
    let a = first_nonspace_exec(s, 0);
    let b = last_nonspace_end_exec(s, s.unicode_len());
    if a < b {
        String::from_str(s.substring_char(a, b))
    } else {
        String::new()
    }
}

// ---------------------------------------------------------------------------
// Splitting into lines
// ---------------------------------------------------------------------------

/// How many characters the line starting at `i` runs before a newline or the end.
pub open spec fn line_len(s: Seq<char>, i: int) -> nat
    decreases s.len() - i,
{
    if i >= s.len() {
        0
    } else if s[i] == '\n' {
        0
    } else {
        1 + line_len(s, i + 1)
    }
}

proof fn lemma_line_len_bound(s: Seq<char>, i: int)
    requires
        0 <= i <= s.len(),
    ensures
        i + line_len(s, i) <= s.len(),
    decreases s.len() - i,
{
    if i < s.len() && s[i] != '\n' {
        lemma_line_len_bound(s, i + 1);
    }
}

/// The raw lines of `s` from position `i` on: maximal runs without a newline,
/// each newline ending one line.
pub open spec fn lines_from(s: Seq<char>, i: int) -> Seq<Seq<char>>
    decreases s.len() - i + 1,
    when 0 <= i
    via lines_from_decreases
{
    if i > s.len() {
        Seq::<Seq<char>>::empty()
    } else {
        let j = i + line_len(s, i);
        seq![s.subrange(i, j)] + lines_from(s, j + 1)
    }
}

#[via_fn]
proof fn lines_from_decreases(s: Seq<char>, i: int) {
    if 0 <= i <= s.len() {
        lemma_line_len_bound(s, i);
    }
}

/// The lines kept after trimming: every trimmed line that is not blank, in order.
pub open spec fn keep_lines(lines: Seq<Seq<char>>) -> Seq<Seq<char>>
    decreases lines.len(),
{
    if lines.len() == 0 {
        Seq::<Seq<char>>::empty()
    } else {
        let t = trim_spec(lines[0]);
        (if t.len() == 0 {
            Seq::<Seq<char>>::empty()
        } else {
            seq![t]
        }) + keep_lines(lines.drop_first())
    }
}

/// The set of paths a newline-delimited text holds: its trimmed, non-blank lines.
pub open spec fn parsed_paths(s: Seq<char>) -> Seq<Seq<char>> {
    keep_lines(lines_from(s, 0))
}

fn line_end_exec(s: &str, i: usize) -> (r: usize)
    requires
        i <= s@.len(),
    ensures
        r as int == i + line_len(s@, i as int),
        i <= r <= s@.len(),
    decreases s@.len() - i,
{
    let n = s.unicode_len();
    if i == n {
        i
    } else if s.get_char(i) == '\n' {
        i
    } else {
        line_end_exec(s, i + 1)
    }
}

fn parse_from(s: &str, i: usize) -> (r: Vec<String>)
    requires
        i <= s@.len() + 1,
        s@.len() < usize::MAX,
    ensures
        views_of(r@) == keep_lines(lines_from(s@, i as int)),
    decreases s@.len() + 1 - i,
{
    let n = s.unicode_len();
    if i > n {
        let r = Vec::<String>::new();
        proof {
            assert(views_of(r@) =~= keep_lines(lines_from(s@, i as int)));
        }
        return r;
    }
    let j = line_end_exec(s, i);
    let line = s.substring_char(i, j);
    let t = trim_to_string(line);
    let mut rest = parse_from(s, j + 1);
    let ghost rest_views = views_of(rest@);
    let blank = t.as_str().unicode_len() == 0;
    if !blank {
        rest.insert(0, t);
    }
    proof {
        let raw = lines_from(s@, i as int);
        assert(raw[0] == s@.subrange(i as int, i + line_len(s@, i as int)));
        assert(raw.drop_first() =~= lines_from(s@, j + 1));
        if blank {
            assert(views_of(rest@) =~= keep_lines(raw));
        } else {
            assert(views_of(rest@) =~= seq![trim_spec(raw[0])] + rest_views);
            assert(views_of(rest@) =~= keep_lines(raw));
        }
    }
    rest
}

/// Parses a newline-delimited text into its trimmed, non-blank lines, in order.
pub fn parse_lines(s: &str) -> (r: Vec<String>)
    requires
        s@.len() < usize::MAX,
    ensures
        views_of(r@) == parsed_paths(s@),
{
    parse_from(s, 0)
}

// ---------------------------------------------------------------------------
// Rendering lines
// ---------------------------------------------------------------------------

/// The lines joined back into one text, a newline after each line.
pub open spec fn join_lines(lines: Seq<Seq<char>>) -> Seq<char>
    decreases lines.len(),
{
    if lines.len() == 0 {
        Seq::<char>::empty()
    } else {
        join_lines(lines.drop_last()) + lines.last() + seq!['\n']
    }
}

/// Renders each line followed by a newline.
pub fn render_lines(lines: &Vec<String>) -> (r: String)
    ensures
        r@ == join_lines(views_of(lines@)),
{
    let mut r = String::new();
    let mut i: usize = 0;
    proof {
        assert(views_of(lines@).take(0) =~= Seq::<Seq<char>>::empty());
        assert(r@ =~= join_lines(views_of(lines@).take(0)));
    }
    while i < lines.len()
        invariant
            i <= lines.len(),
            r@ == join_lines(views_of(lines@).take(i as int)),
        decreases lines.len() - i,
    {
        r.append(lines[i].as_str());
        r.append("\n");
        proof {
            reveal_strlit("\n");
            let vs = views_of(lines@);
            assert(vs.take(i + 1).drop_last() =~= vs.take(i as int));
            assert(vs.take(i + 1).last() == vs[i as int]);
            assert("\n"@ =~= seq!['\n']);
            assert(r@ =~= join_lines(vs.take(i + 1)));
        }
        i = i + 1;
    }
    proof {
        assert(views_of(lines@).take(lines@.len() as int) =~= views_of(lines@));
    }
    r
}

// ---------------------------------------------------------------------------
// Round trip of the line format
// ---------------------------------------------------------------------------

/// A path that the line format keeps unchanged: non-empty, holding no
/// newline, with no space at either end.
pub open spec fn clean_path(p: Seq<char>) -> bool {
    &&& p.len() > 0
    &&& !is_space(p[0])
    &&& !is_space(p[p.len() - 1])
    &&& forall|k: int| 0 <= k < p.len() ==> p[k] != '\n'
}

proof fn lemma_join_head(lines: Seq<Seq<char>>)
    requires
        lines.len() > 0,
    ensures
        join_lines(lines) == lines[0] + seq!['\n'] + join_lines(lines.drop_first()),
    decreases lines.len(),
{
    if lines.len() == 1 {
        assert(lines.drop_last() =~= Seq::<Seq<char>>::empty());
        assert(lines.drop_first() =~= Seq::<Seq<char>>::empty());
        assert(join_lines(lines) =~= lines[0] + seq!['\n'] + join_lines(lines.drop_first()));
    } else {
        let dl = lines.drop_last();
        lemma_join_head(dl);
        assert(dl[0] == lines[0]);
        assert(lines.drop_first().drop_last() =~= dl.drop_first());
        assert(lines.drop_first().last() == lines.last());
        assert(join_lines(lines.drop_first()) == join_lines(dl.drop_first()) + lines.last()
            + seq!['\n']);
        assert(join_lines(lines) =~= lines[0] + seq!['\n'] + join_lines(lines.drop_first()));
    }
}

/// Joining the concatenation of two line sequences concatenates the texts.
pub proof fn lemma_join_lines_concat(a: Seq<Seq<char>>, b: Seq<Seq<char>>)
    ensures
        join_lines(a + b) == join_lines(a) + join_lines(b),
    decreases b.len(),
{
    if b.len() == 0 {
        assert(a + b =~= a);
        assert(join_lines(a) + join_lines(b) =~= join_lines(a));
    } else {
        lemma_join_lines_concat(a, b.drop_last());
        assert((a + b).drop_last() =~= a + b.drop_last());
        assert((a + b).last() == b.last());
        assert(join_lines(a + b) =~= join_lines(a) + join_lines(b));
    }
}

proof fn lemma_line_len_shift(s: Seq<char>, i: int, k: int)
    requires
        0 <= i <= s.len(),
        0 <= k,
    ensures
        line_len(s, i + k) == line_len(s.skip(i), k),
    decreases s.len() - (i + k),
{
    let t = s.skip(i);
    if i + k >= s.len() {
    } else {
        assert(t[k] == s[i + k]);
        if s[i + k] != '\n' {
            lemma_line_len_shift(s, i, k + 1);
        }
    }
}

proof fn lemma_lines_from_shift(s: Seq<char>, i: int, k: int)
    requires
        0 <= i <= s.len(),
        0 <= k,
    ensures
        lines_from(s, i + k) == lines_from(s.skip(i), k),
    decreases s.len() + 1 - (i + k),
{
    let t = s.skip(i);
    if i + k > s.len() {
        assert(lines_from(s, i + k) =~= lines_from(t, k));
    } else {
        lemma_line_len_shift(s, i, k);
        lemma_line_len_bound(s, i + k);
        let j = i + k + line_len(s, i + k);
        assert(s.subrange(i + k, j) =~= t.subrange(k, k + line_len(t, k)));
        lemma_lines_from_shift(s, i, j - i + 1);
        assert(lines_from(s, i + k) =~= lines_from(t, k));
    }
}

proof fn lemma_line_len_clean_at(p: Seq<char>, rest: Seq<char>, i: int)
    requires
        0 <= i <= p.len(),
        forall|k: int| 0 <= k < p.len() ==> p[k] != '\n',
    ensures
        line_len(p + seq!['\n'] + rest, i) == p.len() - i,
    decreases p.len() - i,
{
    let s = p + seq!['\n'] + rest;
    if i == p.len() {
        assert(s[i] == '\n');
    } else {
        assert(s[i] == p[i]);
        lemma_line_len_clean_at(p, rest, i + 1);
    }
}

proof fn lemma_trim_clean(p: Seq<char>)
    requires
        clean_path(p),
    ensures
        trim_spec(p) == p,
{
    assert(first_nonspace(p, 0) == 0);
    assert(last_nonspace_end(p, p.len() as int) == p.len());
    assert(p.subrange(0, p.len() as int) =~= p);
}

/// Round trip of the line format: rendering clean paths and parsing the text
/// back yields exactly those paths, in order.
pub proof fn lemma_lines_round_trip(ps: Seq<Seq<char>>)
    requires
        forall|i: int| 0 <= i < ps.len() ==> clean_path(#[trigger] ps[i]),
    ensures
        parsed_paths(join_lines(ps)) == ps,
    decreases ps.len(),
{
    if ps.len() == 0 {
        let s = join_lines(ps);
        assert(s =~= Seq::<char>::empty());
        let raw = lines_from(s, 0);
        reveal_with_fuel(lines_from, 3);
        assert(raw =~~= seq![Seq::<char>::empty()]);
        assert(trim_spec(raw[0]) =~= Seq::<char>::empty());
        assert(raw.drop_first() =~= Seq::<Seq<char>>::empty());
        assert(keep_lines(raw.drop_first()) =~= Seq::<Seq<char>>::empty());
        assert(keep_lines(raw) =~= Seq::<Seq<char>>::empty());
        assert(parsed_paths(join_lines(ps)) =~= ps);
    } else {
        let p0 = ps[0];
        let tail = ps.drop_first();
        let s = join_lines(ps);
        let srest = join_lines(tail);
        lemma_join_head(ps);
        lemma_line_len_clean_at(p0, srest, 0);
        assert(line_len(s, 0) == p0.len());
        assert(s.subrange(0, p0.len() as int) =~= p0);
        lemma_lines_from_shift(s, p0.len() as int + 1, 0);
        assert(s.skip(p0.len() as int + 1) =~= srest);
        lemma_trim_clean(p0);
        lemma_lines_round_trip(tail);
        let raw = lines_from(s, 0);
        assert(raw[0] == p0);
        assert(raw.drop_first() =~= lines_from(srest, 0));
        assert(keep_lines(raw) =~= seq![p0] + keep_lines(lines_from(srest, 0)));
        assert(parsed_paths(s) =~= ps);
    }
}

// ---------------------------------------------------------------------------
// Lexicographic order and sorting
// ---------------------------------------------------------------------------

/// Lexicographic comparison of two character sequences from position `i` on.
pub open spec fn lex_le_from(a: Seq<char>, b: Seq<char>, i: int) -> bool
    decreases a.len() - i,
{
    if i >= a.len() {
        true
    } else if i >= b.len() {
        false
    } else if a[i] != b[i] {
        a[i] < b[i]
    } else {
        lex_le_from(a, b, i + 1)
    }
}

/// Lexicographic order on character sequences: a prefix comes first.
pub open spec fn lex_le(a: Seq<char>, b: Seq<char>) -> bool {
    lex_le_from(a, b, 0)
}

/// The lexicographic order as a relation value.
pub open spec fn lex_leq_fn() -> spec_fn(Seq<char>, Seq<char>) -> bool {
    |a: Seq<char>, b: Seq<char>| lex_le(a, b)
}

fn lex_le_exec_from(a: &str, b: &str, i: usize) -> (r: bool)
    requires
        i <= a@.len(),
        i <= b@.len(),
    ensures
        r == lex_le_from(a@, b@, i as int),
    decreases a@.len() - i,
{
    let an = a.unicode_len();
    let bn = b.unicode_len();
    if i == an {
        true
    } else if i == bn {
        false
    } else {
        let ca = a.get_char(i);
        let cb = b.get_char(i);
        if ca != cb {
            ca < cb
        } else {
            lex_le_exec_from(a, b, i + 1)
        }
    }
}

/// Compares two strings in lexicographic order.
pub fn lex_le_strings(a: &str, b: &str) -> (r: bool)
    ensures
        r == lex_le(a@, b@),
{
    lex_le_exec_from(a, b, 0)
}

proof fn lemma_lex_total(a: Seq<char>, b: Seq<char>, i: int)
    ensures
        lex_le_from(a, b, i) || lex_le_from(b, a, i),
    decreases a.len() - i,
{
    if i < a.len() && i < b.len() && a[i] == b[i] {
        lemma_lex_total(a, b, i + 1);
    }
}

proof fn lemma_lex_trans(a: Seq<char>, b: Seq<char>, c: Seq<char>, i: int)
    requires
        lex_le_from(a, b, i),
        lex_le_from(b, c, i),
    ensures
        lex_le_from(a, c, i),
    decreases a.len() - i,
{
    if i >= a.len() {
    } else if i < a.len() && i < b.len() && i < c.len() && a[i] == b[i] && b[i] == c[i] {
        lemma_lex_trans(a, b, c, i + 1);
    }
}

proof fn lemma_lex_refl(a: Seq<char>, i: int)
    ensures
        lex_le_from(a, a, i),
    decreases a.len() - i,
{
    if i < a.len() {
        lemma_lex_refl(a, i + 1);
    }
}

proof fn lemma_lex_antisym(a: Seq<char>, b: Seq<char>, i: int)
    requires
        0 <= i <= a.len(),
        i <= b.len(),
        lex_le_from(a, b, i),
        lex_le_from(b, a, i),
    ensures
        a.subrange(i, a.len() as int) == b.subrange(i, b.len() as int),
    decreases a.len() - i,
{
    if i == a.len() {
        assert(a.subrange(i, a.len() as int) =~= b.subrange(i, b.len() as int));
    } else if i == b.len() {
        assert(!lex_le_from(a, b, i));
    } else if a[i] == b[i] {
        lemma_lex_antisym(a, b, i + 1);
        let ra = a.subrange(i, a.len() as int);
        let rb = b.subrange(i, b.len() as int);
        let ta = a.subrange(i + 1, a.len() as int);
        let tb = b.subrange(i + 1, b.len() as int);
        assert(ta == tb);
        assert(ta.len() == tb.len());
        assert(a.len() == b.len());
        assert(ra.len() == rb.len());
        assert forall|k: int| 0 <= k < ra.len() implies ra[k] == rb[k] by {
            if k > 0 {
                assert(ta[k - 1] == ra[k]);
                assert(tb[k - 1] == rb[k]);
            }
        }
        assert(ra =~= rb);
    }
}

/// The lexicographic order is a total order.
pub proof fn lemma_lex_total_ordering()
    ensures
        vstd::relations::total_ordering(lex_leq_fn()),
{
    let leq = lex_leq_fn();
    assert forall|x: Seq<char>| #[trigger] leq(x, x) by {
        lemma_lex_refl(x, 0);
    }
    assert forall|x: Seq<char>, y: Seq<char>| #[trigger] leq(x, y) && #[trigger] leq(y, x)
        implies x == y by {
        lemma_lex_antisym(x, y, 0);
        assert(x.subrange(0, x.len() as int) =~= x);
        assert(y.subrange(0, y.len() as int) =~= y);
    }
    assert forall|x: Seq<char>, y: Seq<char>, z: Seq<char>|
        #[trigger] leq(x, y) && #[trigger] leq(y, z) implies leq(x, z) by {
        lemma_lex_trans(x, y, z, 0);
    }
    assert forall|x: Seq<char>, y: Seq<char>| #[trigger] leq(x, y) || #[trigger] leq(y, x) by {
        lemma_lex_total(x, y, 0);
    }
}

fn insertion_point(r: &Vec<String>, x: &str) -> (idx: usize)
    ensures
        idx <= r@.len(),
        forall|j: int| 0 <= j < idx ==> lex_le(views_of(r@)[j], x@),
        idx < r@.len() ==> !lex_le(views_of(r@)[idx as int], x@),
{
    let mut idx: usize = 0;
    while idx < r.len()
        invariant
            idx <= r@.len(),
            forall|j: int| 0 <= j < idx ==> lex_le(views_of(r@)[j], x@),
        decreases r@.len() - idx,
    {
        if !lex_le_strings(r[idx].as_str(), x) {
            return idx;
        }
        idx = idx + 1;
    }
    idx
}

/// Sorts strings lexicographically: the result is exactly the sorted
/// arrangement of the given strings.
pub fn sort_strings(v: &Vec<String>) -> (r: Vec<String>)
    ensures
        views_of(r@).to_multiset() == views_of(v@).to_multiset(),
        vstd::relations::sorted_by(views_of(r@), lex_leq_fn()),
        views_of(r@) == views_of(v@).sort_by(lex_leq_fn()),
{
    let mut r: Vec<String> = Vec::new();
    let mut i: usize = 0;
    proof {
        broadcast use vstd::seq_lib::group_to_multiset_ensures;

        assert(views_of(r@) =~= Seq::<Seq<char>>::empty());
        assert(views_of(v@.take(0)) =~= Seq::<Seq<char>>::empty());
        assert(views_of(r@).to_multiset() =~= views_of(v@.take(0)).to_multiset());
    }
    while i < v.len()
        invariant
            i <= v.len(),
            vstd::relations::sorted_by(views_of(r@), lex_leq_fn()),
            views_of(r@).to_multiset() == views_of(v@.take(i as int)).to_multiset(),
        decreases v.len() - i,
    {
        let x = v[i].clone();
        let idx = insertion_point(&r, x.as_str());
        let ghost old_views = views_of(r@);
        r.insert(idx, x);
        proof {
            broadcast use vstd::seq_lib::group_to_multiset_ensures;
            broadcast use vstd::seq_lib::to_multiset_insert;

            let new_views = views_of(r@);
            assert(new_views =~= old_views.insert(idx as int, v@[i as int]@));
            assert(new_views.to_multiset() =~= old_views.to_multiset().insert(v@[i as int]@));
            assert(views_of(v@.take(i + 1)) =~= views_of(v@.take(i as int)).push(v@[i as int]@));
            assert(views_of(v@.take(i + 1)).to_multiset() =~= views_of(
                v@.take(i as int),
            ).to_multiset().insert(v@[i as int]@));
            let xv = v@[i as int]@;
            assert forall|m: int, n: int| 0 <= m < n < new_views.len() implies #[trigger] lex_leq_fn()(
                new_views[m],
                new_views[n],
            ) by {
                if idx < old_views.len() {
                    lemma_lex_total(old_views[idx as int], xv, 0);
                }
                if m < idx && n > idx {
                    assert(new_views[m] == old_views[m]);
                    assert(new_views[n] == old_views[n - 1]);
                    assert(lex_leq_fn()(old_views[m], old_views[n - 1]));
                } else if m < idx && n == idx {
                    assert(new_views[m] == old_views[m]);
                    assert(lex_le(old_views[m], xv));
                } else if m == idx && n > idx {
                    assert(new_views[n] == old_views[n - 1]);
                    assert(lex_le(xv, old_views[idx as int]));
                    if n - 1 > idx {
                        assert(lex_leq_fn()(old_views[idx as int], old_views[n - 1]));
                        lemma_lex_trans(xv, old_views[idx as int], old_views[n - 1], 0);
                    }
                    assert(lex_le(xv, old_views[n - 1]));
                } else if n < idx {
                    assert(new_views[m] == old_views[m]);
                    assert(new_views[n] == old_views[n]);
                    assert(lex_leq_fn()(old_views[m], old_views[n]));
                } else {
                    assert(new_views[m] == old_views[m - 1]);
                    assert(new_views[n] == old_views[n - 1]);
                    assert(lex_leq_fn()(old_views[m - 1], old_views[n - 1]));
                }
            }
        }
        i = i + 1;
    }
    proof {
        assert(v@.take(v@.len() as int) =~= v@);
        lemma_lex_total_ordering();
        views_of(v@).lemma_sort_by_ensures(lex_leq_fn());
        vstd::seq_lib::lemma_sorted_unique(
            views_of(r@),
            views_of(v@).sort_by(lex_leq_fn()),
            lex_leq_fn(),
        );
    }
    r
}

} // verus!
