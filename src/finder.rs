//! The vault finder: fuzzy ranking of file paths and a capped,
//! case-insensitive search of file contents.

use vstd::prelude::*;
use fuzzy_matcher::FuzzyMatcher;
use crate::links::{lower_of, lowered, NoteLines, line_views};
use crate::text::{chars_of, trim, trimmed, string_of};

verus! {

/// Relies on `SkimMatcherV2::fuzzy_match` with the default matcher: the
/// score of `candidate` against `query`, higher is better, none for no match.
pub uninterp spec fn fuzzy_score(candidate: Seq<char>, query: Seq<char>) -> Option<i64>;

/// Relies on `SkimMatcherV2::fuzzy_match` (default settings) to score a path.
#[verifier::external_body]
fn skim_score(candidate: &str, query: &str) -> (r: Option<i64>)
    ensures
        r == fuzzy_score(candidate@, query@),
{
    fuzzy_matcher::skim::SkimMatcherV2::default().fuzzy_match(candidate, query)
}

/// `(score, index)` pair `a` ranks before `b`: higher score first, then the
/// earlier listing position.
pub open spec fn ranks_before(a: (i64, usize), b: (i64, usize)) -> bool {
    a.0 > b.0 || (a.0 == b.0 && a.1 < b.1)
}

/// Whether `r` lists scored indices in strict rank order.
pub open spec fn rank_sorted(r: Seq<(i64, usize)>) -> bool {
    forall|i: int, j: int| 0 <= i < j < r.len() ==> ranks_before(#[trigger] r[i], #[trigger] r[j])
}

/// Whether `r` holds exactly the matched candidates among `scores`, each
/// with its score.
pub open spec fn holds_matches(r: Seq<(i64, usize)>, scores: Seq<Option<i64>>) -> bool {
    &&& forall|k: int| 0 <= k < r.len() ==> (#[trigger] r[k]).1 < scores.len() && scores[r[k].1 as int]
        == Some(r[k].0)
    &&& forall|m: int| 0 <= m < scores.len() && (#[trigger] scores[m]) is Some ==> exists|k: int|
        0 <= k < r.len() && (#[trigger] r[k]).1 == m
}

/// Orders every matched candidate by rank: higher score first, ties kept in
/// listing order.
pub fn rank_all(scores: &Vec<Option<i64>>) -> (r: Vec<(i64, usize)>)
    ensures
        rank_sorted(r@),
        holds_matches(r@, scores@),
{
    let mut r: Vec<(i64, usize)> = Vec::new();
    let mut i: usize = 0;
    while i < scores.len()
        invariant
            i <= scores.len(),
            rank_sorted(r@),
            forall|k: int| 0 <= k < r.len() ==> (#[trigger] r@[k]).1 < i && scores@[r@[k].1 as int]
                == Some(r@[k].0),
            forall|m: int| 0 <= m < i && (#[trigger] scores@[m]) is Some ==> exists|k: int|
                0 <= k < r.len() && (#[trigger] r@[k]).1 == m,
        decreases scores.len() - i,
    {
        if let Some(s) = scores[i] {
            let x = (s, i);
            let mut j: usize = 0;
            while j < r.len() && ranks_before_exec(r[j], x)
                invariant
                    j <= r.len(),
                    forall|k: int| 0 <= k < j ==> ranks_before(#[trigger] r@[k], x),
                decreases r.len() - j,
            {
                j = j + 1;
            }
            let ghost old_r = r@;
            proof {
                assert forall|k: int| j <= k < old_r.len() implies ranks_before(x, #[trigger] old_r[k]) by {
                    assert(old_r[k].1 < i);
                    if k > j {
                        assert(ranks_before(old_r[j as int], old_r[k]));
                    }
                }
            }
            r.insert(j, x);
            proof {
                let nr = r@;
                assert(nr == old_r.insert(j as int, x));
                assert forall|a: int, b: int| 0 <= a < b < nr.len() implies ranks_before(
                    #[trigger] nr[a],
                    #[trigger] nr[b],
                ) by {
                    if a < j && b > j {
                        assert(ranks_before(old_r[a], old_r[b - 1]));
                    } else if a > j {
                        assert(nr[a] == old_r[a - 1] && nr[b] == old_r[b - 1]);
                    }
                }
                assert forall|m: int| 0 <= m < i + 1 && (#[trigger] scores@[m]) is Some implies exists|k: int|
                    0 <= k < nr.len() && (#[trigger] nr[k]).1 == m by {
                    if m == i {
                        assert(nr[j as int].1 == m);
                    } else {
                        let k = choose|k: int| 0 <= k < old_r.len() && (#[trigger] old_r[k]).1 == m;
                        if k < j {
                            assert(nr[k].1 == m);
                        } else {
                            assert(nr[k + 1].1 == m);
                        }
                    }
                }
            }
        }
        i = i + 1;
    }
    r
}

fn ranks_before_exec(a: (i64, usize), b: (i64, usize)) -> (r: bool)
    ensures
        r == ranks_before(a, b),
{
    a.0 > b.0 || (a.0 == b.0 && a.1 < b.1)
}

/// The first `limit` elements of `s` (all of them when it is shorter).
pub open spec fn first_n<T>(s: Seq<T>, limit: int) -> Seq<T> {
    if s.len() <= limit {
        s
    } else {
        s.take(limit)
    }
}

fn take_first<T: Copy>(v: &Vec<T>, limit: usize) -> (r: Vec<T>)
    ensures
        r@ == first_n(v@, limit as int),
{
    let mut r: Vec<T> = Vec::new();
    let mut i: usize = 0;
    while i < v.len() && i < limit
        invariant
            i <= v.len(),
            i <= limit,
            r@ == v@.take(i as int),
        decreases v.len() - i,
    {
        r.push(v[i]);
        assert(v@.take(i + 1) == v@.take(i as int).push(v@[i as int]));
        i = i + 1;
    }
    assert(v@.take(v.len() as int) == v@);
    r
}

/// The listing positions to show for a non-empty query: the `limit`
/// best-ranked matched candidates, best first.
pub fn rank_files(scores: &Vec<Option<i64>>, limit: usize) -> (r: Vec<(i64, usize)>)
    ensures
        r.len() <= limit,
        exists|all: Seq<(i64, usize)>| rank_sorted(all) && holds_matches(all, scores@) && r@ == first_n(
            all,
            limit as int,
        ),
{
    let all = rank_all(scores);
    let r = take_first(&all, limit);
    assert(rank_sorted(all@) && holds_matches(all@, scores@) && r@ == first_n(all@, limit as int));
    r
}

/// One finder hit: a path, the 1-based line for a content hit, and a preview.
#[derive(Debug)]
pub struct FinderResult {
    pub path: String,
    pub line: Option<usize>,
    pub preview: String,
}

impl View for FinderResult {
    type V = (Seq<char>, Option<int>, Seq<char>);

    open spec fn view(&self) -> (Seq<char>, Option<int>, Seq<char>) {
        (
            self.path@,
            match self.line {
                Some(l) => Some(l as int),
                None => None,
            },
            self.preview@,
        )
    }
}

/// The views of a vector of finder results.
pub open spec fn result_views(v: Seq<FinderResult>) -> Seq<(Seq<char>, Option<int>, Seq<char>)> {
    v.map_values(|e: FinderResult| e@)
}

/// File mode: with an empty query the first `limit` paths, unranked; else
/// the `limit` best fuzzy matches, best first, ties in listing order. Each
/// result's preview is its path.
pub fn find_files(paths: &Vec<String>, query: &str, limit: usize) -> (r: Vec<FinderResult>)
    ensures
        r.len() <= limit,
        query@.len() == 0 ==> result_views(r@) == first_n(
            paths@.map_values(|p: String| (p@, None::<int>, p@)),
            limit as int,
        ),
        query@.len() > 0 ==> exists|all: Seq<(i64, usize)>|
            rank_sorted(all) && holds_matches(all, paths@.map_values(|p: String| fuzzy_score(p@, query@)))
                && result_views(r@) == first_n(all, limit as int).map_values(
                |x: (i64, usize)| (paths@[x.1 as int]@, None::<int>, paths@[x.1 as int]@),
            ),
{
    let mut out: Vec<FinderResult> = Vec::new();
    if query.is_empty() {
        let ghost want = paths@.map_values(|p: String| (p@, None::<int>, p@));
        let mut i: usize = 0;
        while i < paths.len() && i < limit
            invariant
                i <= paths.len(),
                i <= limit,
                want == paths@.map_values(|p: String| (p@, None::<int>, p@)),
                result_views(out@) == want.take(i as int),
            decreases paths.len() - i,
        {
            let p = paths[i].clone();
            let ghost before = result_views(out@);
            out.push(FinderResult { path: p.clone(), line: None, preview: p });
            assert(result_views(out@) == before.push(want[i as int]));
            assert(want.take(i + 1) == want.take(i as int).push(want[i as int]));
            i = i + 1;
        }
        assert(want.take(paths.len() as int) == want);
        return out;
    }
    let ghost sv = paths@.map_values(|p: String| fuzzy_score(p@, query@));
    let mut scores: Vec<Option<i64>> = Vec::new();
    let mut i: usize = 0;
    while i < paths.len()
        invariant
            i <= paths.len(),
            sv == paths@.map_values(|p: String| fuzzy_score(p@, query@)),
            scores@ == sv.take(i as int),
        decreases paths.len() - i,
    {
        scores.push(skim_score(paths[i].as_str(), query));
        assert(sv.take(i + 1) == sv.take(i as int).push(sv[i as int]));
        i = i + 1;
    }
    assert(sv.take(paths.len() as int) == sv);
    let top = rank_files(&scores, limit);
    let ghost all = choose|all: Seq<(i64, usize)>|
        rank_sorted(all) && holds_matches(all, scores@) && top@ == first_n(all, limit as int);
    let ghost want = top@.map_values(
        |x: (i64, usize)| (paths@[x.1 as int]@, None::<int>, paths@[x.1 as int]@),
    );
    let mut k: usize = 0;
    while k < top.len()
        invariant
            k <= top.len() <= limit,
            top@ == first_n(all, limit as int),
            holds_matches(all, scores@),
            scores@.len() == paths@.len(),
            want == top@.map_values(
                |x: (i64, usize)| (paths@[x.1 as int]@, None::<int>, paths@[x.1 as int]@),
            ),
            result_views(out@) == want.take(k as int),
        decreases top.len() - k,
    {
        let idx = top[k].1;
        proof {
            if all.len() <= limit {
            } else {
                assert(top@[k as int] == all[k as int]);
            }
        }
        let p = paths[idx].clone();
        let ghost before = result_views(out@);
        out.push(FinderResult { path: p.clone(), line: None, preview: p });
        assert(result_views(out@) == before.push(want[k as int]));
        assert(want.take(k + 1) == want.take(k as int).push(want[k as int]));
        k = k + 1;
    }
    assert(want.take(top.len() as int) == want);
    out
}

/// Whether `n` occurs in `s` at or after position `i`.
pub open spec fn occurs_from(s: Seq<char>, n: Seq<char>, i: int) -> bool
    decreases s.len() + 1 - i,
{
    if i < 0 || i + n.len() > s.len() {
        false
    } else {
        s.subrange(i, i + n.len()) == n || occurs_from(s, n, i + 1)
    }
}

fn contains_at(s: &Vec<char>, n: &Vec<char>, i: usize) -> (r: bool)
    requires
        i + n.len() <= s.len(),
    ensures
        r == (s@.subrange(i as int, i + n.len()) == n@),
{
    let mut k: usize = 0;
    while k < n.len()
        invariant
            k <= n.len(),
            i + n.len() <= s.len(),
            forall|j: int| 0 <= j < k ==> s@[i + j] == n@[j],
        decreases n.len() - k,
    {
        if s[i + k] != n[k] {
            assert(s@.subrange(i as int, i + n.len())[k as int] != n@[k as int]);
            return false;
        }
        k = k + 1;
    }
    assert(s@.subrange(i as int, i + n.len()) == n@);
    true
}

/// Whether `n` occurs in `s`.
pub fn contains_seq(s: &Vec<char>, n: &Vec<char>) -> (r: bool)
    ensures
        r == occurs_from(s@, n@, 0),
{
    if n.len() > s.len() {
        return false;
    }
    let last = s.len() - n.len();
    let mut i: usize = 0;
    loop
        invariant
            n.len() <= s.len(),
            last == s.len() - n.len(),
            i <= last,
            occurs_from(s@, n@, 0) == occurs_from(s@, n@, i as int),
        decreases last - i,
    {
        if contains_at(s, n, i) {
            return true;
        }
        if i == last {
            assert(!occurs_from(s@, n@, i + 1));
            return false;
        }
        i = i + 1;
    }
}

/// The content hits for needle `needle` among the first `n` lines of the
/// note at `path`: lines whose lower-cased text contains the needle.
pub open spec fn line_hits(path: Seq<char>, lines: Seq<Seq<char>>, needle: Seq<char>, n: int) -> Seq<
    (Seq<char>, Option<int>, Seq<char>),
>
    decreases n,
{
    if n <= 0 || n > lines.len() {
        Seq::empty()
    } else if occurs_from(lower_of(lines[n - 1]), needle, 0) {
        line_hits(path, lines, needle, n - 1).push((path, Some(n), trim(lines[n - 1])))
    } else {
        line_hits(path, lines, needle, n - 1)
    }
}

/// Every content hit of the first `n` notes, in scan order.
pub open spec fn content_hits(notes: Seq<NoteLines>, needle: Seq<char>, n: int) -> Seq<
    (Seq<char>, Option<int>, Seq<char>),
>
    decreases n,
{
    if n <= 0 || n > notes.len() {
        Seq::empty()
    } else {
        content_hits(notes, needle, n - 1) + line_hits(
            notes[n - 1].path@,
            line_views(notes[n - 1].lines@),
            lower_of(needle),
            notes[n - 1].lines@.len() as int,
        )
    }
}

/// Content mode: the first `limit` lines, in scan order over notes then
/// lines, whose lower-cased text contains the lower-cased query; nothing
/// for an empty query. Each preview is the trimmed line.
pub fn search_contents(notes: &Vec<NoteLines>, query: &Vec<char>, limit: usize) -> (r: Vec<FinderResult>)
    ensures
        r.len() <= limit,
        query@.len() == 0 ==> r@.len() == 0,
        query@.len() > 0 ==> result_views(r@) == first_n(
            content_hits(notes@, query@, notes@.len() as int),
            limit as int,
        ),
{
    let mut hits: Vec<FinderResult> = Vec::new();
    if query.len() == 0 || limit == 0 {
        return hits;
    }
    let needle = lowered(query);
    let ghost total = content_hits(notes@, query@, notes@.len() as int);
    let mut i: usize = 0;
    assert(result_views(hits@) == content_hits(notes@, query@, 0));
    while i < notes.len()
        invariant
            i <= notes.len(),
            0 < limit,
            query@.len() > 0,
            hits.len() < limit,
            needle@ == lower_of(query@),
            total == content_hits(notes@, query@, notes@.len() as int),
            result_views(hits@) == content_hits(notes@, query@, i as int),
        decreases notes.len() - i,
    {
        let note = &notes[i];
        let ghost base = result_views(hits@);
        let ghost lines = line_views(note.lines@);
        let mut k: usize = 0;
        while k < note.lines.len()
            invariant
                k <= note.lines.len(),
                i < notes.len(),
                query@.len() > 0,
                total == content_hits(notes@, query@, notes@.len() as int),
                note == notes@[i as int],
                lines == line_views(note.lines@),
                needle@ == lower_of(query@),
                hits.len() < limit,
                base == content_hits(notes@, query@, i as int),
                result_views(hits@) == base + line_hits(note.path@, lines, needle@, k as int),
            decreases note.lines.len() - k,
        {
            let line = chars_of(note.lines[k].as_str());
            assert(line@ == lines[k as int]);
            let low = lowered(&line);
            if contains_seq(&low, &needle) {
                let t = trimmed(&line);
                let ghost before = result_views(hits@);
                hits.push(FinderResult { path: note.path.clone(), line: Some(k + 1), preview: string_of(&t) });
                assert(result_views(hits@) == before.push((note.path@, Some(k + 1), trim(lines[k as int]))));
                if hits.len() >= limit {
                    proof {
                        lemma_hits_prefix(notes@, query@, i as int, k as int + 1);
                        let part = base + line_hits(note.path@, lines, needle@, k + 1);
                        assert(result_views(hits@) == part);
                        let c = content_hits(notes@, query@, notes@.len() as int);
                        if c.len() == part.len() {
                            assert(c == c.take(part.len() as int));
                        }
                    }
                    return hits;
                }
            }
            k = k + 1;
        }
        assert(note.lines@.len() == lines.len());
        i = i + 1;
    }
    hits
}

proof fn lemma_line_hits_prefix(path: Seq<char>, lines: Seq<Seq<char>>, needle: Seq<char>, k: int, n: int)
    requires
        0 <= k <= n <= lines.len(),
    ensures
        line_hits(path, lines, needle, k).len() <= line_hits(path, lines, needle, n).len(),
        line_hits(path, lines, needle, n).take(line_hits(path, lines, needle, k).len() as int)
            == line_hits(path, lines, needle, k),
    decreases n - k,
{
    if k < n {
        lemma_line_hits_prefix(path, lines, needle, k, n - 1);
        let a = line_hits(path, lines, needle, k);
        let b = line_hits(path, lines, needle, n - 1);
        let c = line_hits(path, lines, needle, n);
        assert(c.take(b.len() as int) =~= b);
        assert(c.take(a.len() as int) =~= a) by {
            assert forall|j: int| 0 <= j < a.len() implies c[j] == a[j] by {
                assert(c[j] == c.take(b.len() as int)[j]);
                assert(b[j] == b.take(a.len() as int)[j]);
            }
        }
    }
}

proof fn lemma_content_prefix(notes: Seq<NoteLines>, needle: Seq<char>, i: int, n: int)
    requires
        0 <= i <= n <= notes.len(),
    ensures
        content_hits(notes, needle, i).len() <= content_hits(notes, needle, n).len(),
        content_hits(notes, needle, n).take(content_hits(notes, needle, i).len() as int)
            == content_hits(notes, needle, i),
    decreases n - i,
{
    if i < n {
        lemma_content_prefix(notes, needle, i, n - 1);
        let a = content_hits(notes, needle, i);
        let b = content_hits(notes, needle, n - 1);
        let c = content_hits(notes, needle, n);
        assert(c.take(b.len() as int) =~= b);
        assert(c.take(a.len() as int) =~= a) by {
            assert forall|j: int| 0 <= j < a.len() implies c[j] == a[j] by {
                assert(c[j] == c.take(b.len() as int)[j]);
                assert(b[j] == b.take(a.len() as int)[j]);
            }
        }
    }
}

/// The hits gathered up to line `k` of note `i` are a prefix of all hits.
proof fn lemma_hits_prefix(notes: Seq<NoteLines>, query: Seq<char>, i: int, k: int)
    requires
        0 <= i < notes.len(),
        0 <= k <= notes[i].lines@.len(),
    ensures
        ({
            let part = content_hits(notes, query, i) + line_hits(
                notes[i].path@,
                line_views(notes[i].lines@),
                lower_of(query),
                k,
            );
            &&& part.len() <= content_hits(notes, query, notes.len() as int).len()
            &&& content_hits(notes, query, notes.len() as int).take(part.len() as int) == part
        }),
{
    let lines = line_views(notes[i].lines@);
    let whole = line_hits(notes[i].path@, lines, lower_of(query), lines.len() as int);
    let part_line = line_hits(notes[i].path@, lines, lower_of(query), k);
    lemma_line_hits_prefix(notes[i].path@, lines, lower_of(query), k, lines.len() as int);
    lemma_content_prefix(notes, query, i + 1, notes.len() as int);
    let a = content_hits(notes, query, i);
    let b = content_hits(notes, query, i + 1);
    let part = a + part_line;
    assert(b == a + whole);
    assert(b.take(part.len() as int) =~= part) by {
        assert forall|j: int| 0 <= j < part.len() implies b[j] == part[j] by {
            if j >= a.len() {
                assert(whole[j - a.len()] == whole.take(part_line.len() as int)[j - a.len()]);
            }
        }
    }
    let c = content_hits(notes, query, notes.len() as int);
    assert(c.take(part.len() as int) =~= part) by {
        assert forall|j: int| 0 <= j < part.len() implies c[j] == part[j] by {
            assert(c[j] == c.take(b.len() as int)[j]);
            assert(b[j] == b.take(part.len() as int)[j]);
        }
    }
}

/// Finder cap: whatever the query, neither mode returns more results than
/// the configured maximum, so lengthening a query never brings the count
/// above it.
pub proof fn finder_cap(
    notes: Seq<NoteLines>,
    paths: Seq<String>,
    query: Seq<char>,
    longer: Seq<char>,
    limit: int,
)
    requires
        0 <= limit,
    ensures
        first_n(content_hits(notes, query, notes.len() as int), limit).len() <= limit,
        first_n(content_hits(notes, query + longer, notes.len() as int), limit).len() <= limit,
        forall|all: Seq<(i64, usize)>| #[trigger] first_n(all, limit).len() <= limit,
        first_n(paths.map_values(|p: String| (p@, None::<int>, p@)), limit).len() <= limit,
{
}

} // verus!
