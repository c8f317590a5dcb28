//! Wikilinks: link keys, resolution against the vault listing, and backlinks.

use vstd::prelude::*;
use crate::markdown::{wiki_at, lemma_run_end, run_end};
use crate::text::{trim, trimmed, slice_of, chars_of, string_of};
use crate::order::{lex_le, lex_le_exec, lemma_lex_total, lemma_lex_trans, lemma_lex_antisym};

verus! {

broadcast use vstd::seq_lib::group_to_multiset_ensures;

/// First index at or after `i` that holds `|` or `#`, or the length of `s`.
pub open spec fn key_end(s: Seq<char>, i: int) -> int
    decreases s.len() - i,
{
    if i < 0 {
        0
    } else if i >= s.len() {
        i
    } else if s[i] == '|' || s[i] == '#' {
        i
    } else {
        key_end(s, i + 1)
    }
}

proof fn lemma_key_end(s: Seq<char>, i: int)
    requires
        0 <= i <= s.len(),
    ensures
        i <= key_end(s, i) <= s.len(),
    decreases s.len() - i,
{
    if i < s.len() && s[i] != '|' && s[i] != '#' {
        lemma_key_end(s, i + 1);
    }
}

/// The resolution key of a link text: the part before any `|alias` or
/// `#anchor`, trimmed.
pub open spec fn link_key(s: Seq<char>) -> Seq<char> {
    trim(s.subrange(0, key_end(s, 0)))
}

/// Strips an alias or anchor suffix and surrounding whitespace from a link text.
pub fn sanitize_link_name(raw: &Vec<char>) -> (r: Vec<char>)
    ensures
        r@ == link_key(raw@),
{
    proof {
        lemma_key_end(raw@, 0);
    }
    let mut i: usize = 0;
    while i < raw.len() && raw[i] != '|' && raw[i] != '#'
        invariant
            i <= raw.len(),
            key_end(raw@, 0) == key_end(raw@, i as int),
        decreases raw.len() - i,
    {
        i = i + 1;
    }
    let head = slice_of(raw, 0, i);
    trimmed(&head)
}

/// The target named by a whole wikilink `[[...]]`, if its key is not empty.
pub open spec fn wikilink_target(w: Seq<char>) -> Option<Seq<char>> {
    if w.len() >= 4 && w[0] == '[' && w[1] == '[' && w[w.len() - 2] == ']' && w[w.len() - 1]
        == ']' && link_key(w.subrange(2, w.len() - 2)).len() > 0 {
        Some(link_key(w.subrange(2, w.len() - 2)))
    } else {
        None
    }
}

/// Parses a whole wikilink `[[target|alias]]` into its target.
pub fn parse_wikilink_target(wikilink: &Vec<char>) -> (r: Option<Vec<char>>)
    ensures
        r is Some <==> wikilink_target(wikilink@) is Some,
        r matches Some(v) ==> wikilink_target(wikilink@) == Some(v@),
{
    let n = wikilink.len();
    if !(n >= 4 && wikilink[0] == '[' && wikilink[1] == '[' && wikilink[n - 2] == ']'
        && wikilink[n - 1] == ']') {
        return None;
    }
    let inner = slice_of(wikilink, 2, n - 2);
    let key = sanitize_link_name(&inner);
    if key.len() == 0 {
        None
    } else {
        Some(key)
    }
}

/// Whether a wikilink found in `s` at or after `p` (matches taken left to
/// right without overlap) has a target equal to `name` up to case.
pub open spec fn links_to_from(s: Seq<char>, p: int, name: Seq<char>) -> bool
    decreases s.len() - p,
{
    if p < 0 || p >= s.len() {
        false
    } else if let Some(e) = wiki_at(s, p) {
        let hit = match wikilink_target(s.subrange(p, e)) {
            Some(t) => lower_of(t) == lower_of(name),
            None => false,
        };
        hit || (p < e <= s.len() && links_to_from(s, e, name))
    } else {
        links_to_from(s, p + 1, name)
    }
}

/// Whether the line `s` holds a wikilink to the note `name`.
pub open spec fn links_to(s: Seq<char>, name: Seq<char>) -> bool {
    links_to_from(s, 0, name)
}

proof fn lemma_wiki_at(s: Seq<char>, p: int)
    requires
        0 <= p < s.len(),
        wiki_at(s, p) is Some,
    ensures
        wiki_at(s, p) matches Some(e) ==> p < e <= s.len(),
{
    lemma_run_end(s, p + 2, ']');
}

fn wiki_end(s: &Vec<char>, p: usize) -> (r: Option<usize>)
    requires
        p < s.len(),
    ensures
        r matches Some(e) ==> wiki_at(s@, p as int) == Some(e as int),
        r is None ==> wiki_at(s@, p as int) is None,
{
    let n = s.len();
    if n - p > 2 && s[p] == '[' && s[p + 1] == '[' {
        proof {
            lemma_run_end(s@, p + 2, ']');
        }
        let mut q = p + 2;
        while q < n && s[q] != ']'
            invariant
                p + 2 <= q <= n == s.len(),
                run_end(s@, p + 2, ']') == run_end(s@, q as int, ']'),
            decreases n - q,
        {
            q = q + 1;
        }
        if q > p + 2 && q < n - 1 && s[q + 1] == ']' {
            return Some(q + 2);
        }
    }
    None
}

/// Whether the line holds a wikilink whose target is `name` up to case.
pub fn line_links_to(line: &Vec<char>, name: &Vec<char>) -> (r: bool)
    ensures
        r == links_to(line@, name@),
{
    let low_name = lowered(name);
    let mut p: usize = 0;
    while p < line.len()
        invariant
            p <= line.len(),
            low_name@ == lower_of(name@),
            links_to(line@, name@) == links_to_from(line@, p as int, name@),
        decreases line.len() - p,
    {
        match wiki_end(line, p) {
            Some(e) => {
                proof {
                    lemma_wiki_at(line@, p as int);
                }
                let w = slice_of(line, p, e);
                if let Some(t) = parse_wikilink_target(&w) {
                    if vec_eq(&lowered(&t), &low_name) {
                        return true;
                    }
                }
                p = e;
            },
            None => {
                p = p + 1;
            },
        }
    }
    false
}

/// The target of the first wikilink (scanning left to right) whose
/// characters cover position `k`, searching from `p`.
pub open spec fn link_under_from(s: Seq<char>, p: int, k: int) -> Option<Seq<char>>
    decreases s.len() - p,
{
    if p < 0 || p >= s.len() {
        None
    } else if let Some(e) = wiki_at(s, p) {
        if p <= k < e {
            wikilink_target(s.subrange(p, e))
        } else if p < e <= s.len() {
            link_under_from(s, e, k)
        } else {
            None
        }
    } else {
        link_under_from(s, p + 1, k)
    }
}

/// The target of the wikilink that covers character `k` of the line.
pub fn wikilink_at(line: &Vec<char>, k: usize) -> (r: Option<Vec<char>>)
    ensures
        r is Some <==> link_under_from(line@, 0, k as int) is Some,
        r matches Some(v) ==> link_under_from(line@, 0, k as int) == Some(v@),
{
    let mut p: usize = 0;
    while p < line.len()
        invariant
            p <= line.len(),
            link_under_from(line@, 0, k as int) == link_under_from(line@, p as int, k as int),
        decreases line.len() - p,
    {
        match wiki_end(line, p) {
            Some(e) => {
                proof {
                    lemma_wiki_at(line@, p as int);
                }
                if p <= k && k < e {
                    let w = slice_of(line, p, e);
                    return parse_wikilink_target(&w);
                }
                p = e;
            },
            None => {
                p = p + 1;
            },
        }
    }
    None
}

/// Relies on `str::to_lowercase`: the result depends on the characters alone.
pub uninterp spec fn lower_of(s: Seq<char>) -> Seq<char>;

/// Relies on `str::to_lowercase` for case-insensitive comparison.
#[verifier::external_body]
fn lowercase(s: &str) -> (r: String)
    ensures
        r@ == lower_of(s@),
{
    s.to_lowercase()
}

/// Lower-cases a character sequence.
pub fn lowered(s: &Vec<char>) -> (r: Vec<char>)
    ensures
        r@ == lower_of(s@),
{
    let st = string_of(s);
    let low = lowercase(st.as_str());
    chars_of(low.as_str())
}

/// A file of the vault as the directory walker lists it.
#[derive(Clone, Debug)]
pub struct VaultFile {
    /// The file's path.
    pub path: String,
    /// The last component of the path.
    pub name: String,
    /// Whether the path's extension is `md`.
    pub markdown: bool,
}

/// The note file name for a link key: the key followed by `.md`.
pub open spec fn note_file_name(key: Seq<char>) -> Seq<char> {
    key + seq!['.', 'm', 'd']
}

/// Whether listed file `f` is a markdown file named `key.md` up to case.
pub open spec fn matches_name(f: VaultFile, key: Seq<char>) -> bool {
    f.markdown && lower_of(f.name@) == lower_of(note_file_name(key))
}

/// The outcome of resolving a wikilink.
#[derive(Clone, Copy, Debug, PartialEq, Eq, Structural)]
pub enum Resolution {
    /// The key is empty: nothing to resolve.
    Empty,
    /// `key.md` exists directly under the vault root.
    Exact,
    /// The listed file at this index matches `key.md` up to case.
    Listed(usize),
    /// Nothing matches: offer to create the note.
    Missing,
}

/// Index of the first listed file from `i` on that matches `key.md` up to case.
pub open spec fn first_named(files: Seq<VaultFile>, key: Seq<char>, i: int) -> Option<int>
    decreases files.len() - i,
{
    if i < 0 || i >= files.len() {
        None
    } else if matches_name(files[i], key) {
        Some(i)
    } else {
        first_named(files, key, i + 1)
    }
}

/// The resolution of key `key` given whether `key.md` exists under the vault
/// root and the recursive listing: exact match first, then the first listed
/// markdown file whose name matches case-insensitively.
pub open spec fn resolution_of(key: Seq<char>, exact_exists: bool, files: Seq<VaultFile>) -> Resolution {
    if key.len() == 0 {
        Resolution::Empty
    } else if exact_exists {
        Resolution::Exact
    } else {
        match first_named(files, key, 0) {
            Some(i) => Resolution::Listed(i as usize),
            None => Resolution::Missing,
        }
    }
}

proof fn lemma_first_named(files: Seq<VaultFile>, key: Seq<char>, i: int)
    requires
        0 <= i,
    ensures
        first_named(files, key, i) matches Some(j) ==> i <= j < files.len() && matches_name(
            files[j],
            key,
        ),
    decreases files.len() - i,
{
    if i < files.len() && !matches_name(files[i], key) {
        lemma_first_named(files, key, i + 1);
    }
}

/// Index of the first candidate from `i` on that is a markdown file whose
/// lower-cased name equals `expected`.
pub open spec fn first_lowered(names: Seq<Seq<char>>, markdown: Seq<bool>, expected: Seq<char>, i: int) -> Option<int>
    decreases names.len() - i,
{
    if i < 0 || i >= names.len() || i >= markdown.len() {
        None
    } else if markdown[i] && names[i] == expected {
        Some(i)
    } else {
        first_lowered(names, markdown, expected, i + 1)
    }
}

/// Picks the first markdown file whose lower-cased name is `expected`;
/// `names` holds the lower-cased file names, `markdown` which are markdown.
pub fn pick_lowered(names: &Vec<Vec<char>>, markdown: &Vec<bool>, expected: &Vec<char>) -> (r: Option<usize>)
    requires
        names.len() == markdown.len(),
    ensures
        r matches Some(i) ==> first_lowered(names@.map_values(|v: Vec<char>| v@), markdown@, expected@, 0) == Some(i as int),
        r is None ==> first_lowered(names@.map_values(|v: Vec<char>| v@), markdown@, expected@, 0) is None,
{
    let ghost nv = names@.map_values(|v: Vec<char>| v@);
    let mut i: usize = 0;
    while i < names.len()
        invariant
            i <= names.len() == markdown.len(),
            nv == names@.map_values(|v: Vec<char>| v@),
            first_lowered(nv, markdown@, expected@, 0) == first_lowered(nv, markdown@, expected@, i as int),
        decreases names.len() - i,
    {
        if markdown[i] && vec_eq(&names[i], expected) {
            return Some(i);
        }
        i = i + 1;
    }
    None
}

/// Resolves a link key: `exact_exists` tells whether `key.md` exists directly
/// under the vault root; otherwise the listing is searched for a markdown
/// file of that name up to case.
pub fn resolve_wikilink_target(key: &Vec<char>, exact_exists: bool, files: &Vec<VaultFile>) -> (r:
    Resolution)
    ensures
        r == resolution_of(key@, exact_exists, files@),
        r matches Resolution::Listed(i) ==> i < files.len() && matches_name(files@[i as int], key@),
{
    if key.len() == 0 {
        return Resolution::Empty;
    }
    if exact_exists {
        return Resolution::Exact;
    }
    let mut name = key.clone();
    name.push('.');
    name.push('m');
    name.push('d');
    assert(name@ == note_file_name(key@));
    let expected = lowered(&name);
    let mut names: Vec<Vec<char>> = Vec::new();
    let mut md: Vec<bool> = Vec::new();
    let mut i: usize = 0;
    while i < files.len()
        invariant
            i <= files.len(),
            names.len() == i,
            md.len() == i,
            forall|k: int| 0 <= k < i ==> (#[trigger] names@[k])@ == lower_of(files@[k].name@) && md@[k] == files@[k].markdown,
        decreases files.len() - i,
    {
        let ghost before = names@;
        let ghost before_md = md@;
        let nm = chars_of(files[i].name.as_str());
        let ln = lowered(&nm);
        assert(ln@ == lower_of(files@[i as int].name@));
        names.push(ln);
        md.push(files[i].markdown);
        proof {
            assert(names@ == before.push(ln));
            assert(md@ == before_md.push(files@[i as int].markdown));
            assert forall|k: int| 0 <= k < i + 1 implies (#[trigger] names@[k])@ == lower_of(files@[k].name@) && md@[k] == files@[k].markdown by {
                if k < i {
                    assert(names@[k] == before[k]);
                    assert(md@[k] == before_md[k]);
                }
            }
        }
        i = i + 1;
    }
    let picked = pick_lowered(&names, &md, &expected);
    proof {
        let nv = names@.map_values(|v: Vec<char>| v@);
        assert forall|k: int| 0 <= k < files@.len() implies #[trigger] nv[k] == lower_of(files@[k].name@) && md@[k] == files@[k].markdown by {
            assert(nv[k] == names@[k]@);
        }
        lemma_first_same(nv, md@, expected@, files@, key@, 0);
        lemma_first_named(files@, key@, 0);
    }
    match picked {
        Some(j) => Resolution::Listed(j),
        None => Resolution::Missing,
    }
}

proof fn lemma_first_same(
    names: Seq<Seq<char>>,
    md: Seq<bool>,
    expected: Seq<char>,
    files: Seq<VaultFile>,
    key: Seq<char>,
    i: int,
)
    requires
        0 <= i,
        names.len() == md.len() == files.len(),
        expected == lower_of(note_file_name(key)),
        forall|k: int| 0 <= k < files.len() ==> #[trigger] names[k] == lower_of(files[k].name@) && md[k] == files[k].markdown,
    ensures
        first_lowered(names, md, expected, i) == first_named(files, key, i),
    decreases files.len() - i,
{
    if i < files.len() {
        assert(names[i] == lower_of(files[i].name@));
        lemma_first_same(names, md, expected, files, key, i + 1);
    }
}

/// Element-wise equality of two character vectors.
pub fn vec_eq(a: &Vec<char>, b: &Vec<char>) -> (r: bool)
    ensures
        r == (a@ == b@),
{
    if a.len() != b.len() {
        return false;
    }
    let mut i: usize = 0;
    while i < a.len()
        invariant
            a.len() == b.len(),
            i <= a.len(),
            forall|k: int| 0 <= k < i ==> a@[k] == b@[k],
        decreases a.len() - i,
    {
        if a[i] != b[i] {
            return false;
        }
        i = i + 1;
    }
    assert(a@ == b@);
    true
}

/// One line of another note that links to the active note.
#[derive(Debug)]
pub struct BacklinkEntry {
    /// The linking note's path.
    pub path: String,
    /// The line number, counting from 1.
    pub line: usize,
    /// The line's text, trimmed.
    pub preview: String,
}

impl View for BacklinkEntry {
    type V = (Seq<char>, int, Seq<char>);

    open spec fn view(&self) -> (Seq<char>, int, Seq<char>) {
        (self.path@, self.line as int, self.preview@)
    }
}

/// A note of the vault with its text split into lines.
#[derive(Debug)]
pub struct NoteLines {
    /// The note's path.
    pub path: String,
    /// Whether the path's extension is `md`.
    pub markdown: bool,
    /// The note's lines, without line terminators.
    pub lines: Vec<String>,
}

/// Backlink order: by path (component-wise), then line, then preview.
pub open spec fn entry_le(a: (Seq<char>, int, Seq<char>), b: (Seq<char>, int, Seq<char>)) -> bool {
    if a.0 != b.0 {
        lex_le(a.0, b.0, true)
    } else if a.1 != b.1 {
        a.1 < b.1
    } else {
        lex_le(a.2, b.2, false)
    }
}

pub proof fn lemma_entry_order(
    a: (Seq<char>, int, Seq<char>),
    b: (Seq<char>, int, Seq<char>),
    c: (Seq<char>, int, Seq<char>),
)
    ensures
        entry_le(a, b) || entry_le(b, a),
        entry_le(a, b) && entry_le(b, c) ==> entry_le(a, c),
{
    lemma_lex_total(a.0, b.0, true);
    lemma_lex_total(a.2, b.2, false);
    lemma_lex_trans(a.0, b.0, c.0, true);
    lemma_lex_trans(a.2, b.2, c.2, false);
    lemma_lex_antisym(a.0, b.0, true);
    lemma_lex_antisym(b.0, c.0, true);
    lemma_lex_antisym(a.0, c.0, true);
    lemma_lex_antisym(a.2, b.2, false);
    lemma_lex_antisym(b.2, c.2, false);
}

/// Whether a sequence of entries is in backlink order.
pub open spec fn entries_sorted(s: Seq<(Seq<char>, int, Seq<char>)>) -> bool {
    forall|i: int, j: int| 0 <= i < j < s.len() ==> entry_le(#[trigger] s[i], #[trigger] s[j])
}

/// The views of a vector of entries.
pub open spec fn views(v: Seq<BacklinkEntry>) -> Seq<(Seq<char>, int, Seq<char>)> {
    v.map_values(|e: BacklinkEntry| e@)
}

/// The lines of a note as character sequences.
pub open spec fn line_views(v: Seq<String>) -> Seq<Seq<char>> {
    v.map_values(|l: String| l@)
}

/// The backlinks to `name` among the first `n` lines of the note at `path`.
pub open spec fn line_entries(path: Seq<char>, lines: Seq<Seq<char>>, name: Seq<char>, n: int) -> Seq<
    (Seq<char>, int, Seq<char>),
>
    decreases n,
{
    if n <= 0 || n > lines.len() {
        Seq::empty()
    } else if links_to(lines[n - 1], name) {
        line_entries(path, lines, name, n - 1).push((path, n, trim(lines[n - 1])))
    } else {
        line_entries(path, lines, name, n - 1)
    }
}

/// Whether a note takes part in the backlink scan for the note at `active`.
pub open spec fn scanned(note: NoteLines, active: Seq<char>) -> bool {
    note.markdown && note.path@ != active
}

/// The backlinks to `name` in the first `n` notes, in scan order.
pub open spec fn gathered(notes: Seq<NoteLines>, active: Seq<char>, name: Seq<char>, n: int) -> Seq<
    (Seq<char>, int, Seq<char>),
>
    decreases n,
{
    if n <= 0 || n > notes.len() {
        Seq::empty()
    } else if scanned(notes[n - 1], active) {
        gathered(notes, active, name, n - 1) + line_entries(
            notes[n - 1].path@,
            line_views(notes[n - 1].lines@),
            name,
            notes[n - 1].lines@.len() as int,
        )
    } else {
        gathered(notes, active, name, n - 1)
    }
}

fn entry_le_exec(a: &BacklinkEntry, b: &BacklinkEntry) -> (r: bool)
    ensures
        r == entry_le(a@, b@),
{
    let ap = chars_of(a.path.as_str());
    let bp = chars_of(b.path.as_str());
    if !vec_eq(&ap, &bp) {
        return lex_le_exec(&ap, &bp, true);
    }
    if a.line != b.line {
        return a.line < b.line;
    }
    let av = chars_of(a.preview.as_str());
    let bv = chars_of(b.preview.as_str());
    lex_le_exec(&av, &bv, false)
}

/// Sorts entries into backlink order.
pub fn sort_backlinks(v: Vec<BacklinkEntry>) -> (r: Vec<BacklinkEntry>)
    ensures
        entries_sorted(views(r@)),
        views(r@).to_multiset() == views(v@).to_multiset(),
{
    let ghost orig = views(v@);
    let mut v = v;
    let mut r: Vec<BacklinkEntry> = Vec::new();
    assert(views(r@) == Seq::<(Seq<char>, int, Seq<char>)>::empty());
    while v.len() > 0
        invariant
            entries_sorted(views(r@)),
            views(r@).to_multiset().add(views(v@).to_multiset()) == orig.to_multiset(),
        decreases v.len(),
    {
        let ghost old_v = views(v@);
        let ghost old_r = views(r@);
        let x = v.pop().unwrap();
        assert(old_v == views(v@).push(x@));
        let mut j: usize = 0;
        while j < r.len() && entry_le_exec(&r[j], &x)
            invariant
                j <= r.len(),
                old_r == views(r@),
                forall|k: int| 0 <= k < j ==> entry_le(#[trigger] views(r@)[k], x@),
            decreases r.len() - j,
        {
            j = j + 1;
        }
        proof {
            if j < r.len() {
                lemma_entry_order(views(r@)[j as int], x@, x@);
                assert forall|k: int| j <= k < old_r.len() implies entry_le(x@, #[trigger] old_r[k]) by {
                    lemma_entry_order(x@, old_r[j as int], old_r[k]);
                    if k > j {
                        assert(entry_le(old_r[j as int], old_r[k]));
                    }
                }
            }
        }
        r.insert(j, x);
        proof {
            let nr = views(r@);
            assert(nr == old_r.insert(j as int, x@));
            assert forall|a: int, b: int| 0 <= a < b < nr.len() implies entry_le(
                #[trigger] nr[a],
                #[trigger] nr[b],
            ) by {
                if a < j && b == j {
                } else if a < j && b > j {
                    lemma_entry_order(old_r[a], x@, old_r[b - 1]);
                } else if a == j {
                } else if b < j {
                } else {
                    assert(nr[a] == old_r[a - 1] && nr[b] == old_r[b - 1]);
                }
            }
            assert(nr.to_multiset() == old_r.to_multiset().insert(x@));
            assert(old_v.to_multiset() == views(v@).to_multiset().insert(x@));
            assert(nr.to_multiset().add(views(v@).to_multiset()) =~= old_r.to_multiset().add(
                old_v.to_multiset(),
            ));
        }
    }
    assert(views(v@) == Seq::<(Seq<char>, int, Seq<char>)>::empty());
    assert(views(r@).to_multiset().add(views(v@).to_multiset()) =~= views(r@).to_multiset());
    r
}

/// Collects, in scan order, every line of every scanned note that holds a
/// wikilink to `name`.
pub fn gather_backlinks(notes: &Vec<NoteLines>, active: &Vec<char>, name: &Vec<char>) -> (r: Vec<
    BacklinkEntry,
>)
    ensures
        views(r@) == gathered(notes@, active@, name@, notes@.len() as int),
{
    let mut out: Vec<BacklinkEntry> = Vec::new();
    let mut i: usize = 0;
    assert(views(out@) =~= gathered(notes@, active@, name@, 0));
    while i < notes.len()
        invariant
            i <= notes.len(),
            views(out@) == gathered(notes@, active@, name@, i as int),
        decreases notes.len() - i,
    {
        let note = &notes[i];
        let path = chars_of(note.path.as_str());
        if note.markdown && !vec_eq(&path, active) {
            let ghost base = views(out@);
            let ghost lines = line_views(note.lines@);
            let mut k: usize = 0;
            while k < note.lines.len()
                invariant
                    k <= note.lines.len(),
                    note == notes@[i as int],
                    lines == line_views(note.lines@),
                    path@ == note.path@,
                    views(out@) == base + line_entries(note.path@, lines, name@, k as int),
                decreases note.lines.len() - k,
            {
                let line = chars_of(note.lines[k].as_str());
                assert(line@ == lines[k as int]);
                if line_links_to(&line, name) {
                    let t = trimmed(&line);
                    let e = BacklinkEntry { path: string_of(&path), line: k + 1, preview: string_of(&t) };
                    let ghost before = views(out@);
                    out.push(e);
                    assert(views(out@) == before.push(e@));
                }
                k = k + 1;
            }
            assert(note.lines@.len() == lines.len());
        }
        i = i + 1;
    }
    out
}

/// The backlinks of the note at `active` whose stem is `name`: every line of
/// every other markdown note that links to `name` up to ASCII case, sorted
/// by path, line and preview.
pub fn collect_backlinks(notes: &Vec<NoteLines>, active: &Vec<char>, name: &Vec<char>) -> (r: Vec<
    BacklinkEntry,
>)
    ensures
        entries_sorted(views(r@)),
        views(r@).to_multiset() == gathered(notes@, active@, name@, notes@.len() as int).to_multiset(),
{
    let found = gather_backlinks(notes, active, name);
    sort_backlinks(found)
}

proof fn lemma_line_entries_contains(path: Seq<char>, lines: Seq<Seq<char>>, name: Seq<char>, n: int, k: int)
    requires
        0 <= k < n <= lines.len(),
        links_to(lines[k], name),
    ensures
        line_entries(path, lines, name, n).contains((path, k + 1, trim(lines[k]))),
    decreases n,
{
    if k < n - 1 {
        lemma_line_entries_contains(path, lines, name, n - 1, k);
        let prev = line_entries(path, lines, name, n - 1);
        let w = choose|w: int| 0 <= w < prev.len() && prev[w] == (path, k + 1, trim(lines[k]));
        if links_to(lines[n - 1], name) {
            assert(line_entries(path, lines, name, n)[w] == prev[w]);
        }
    } else {
        let cur = line_entries(path, lines, name, n);
        assert(cur[cur.len() - 1] == (path, k + 1, trim(lines[k])));
    }
}

proof fn lemma_gathered_contains(
    notes: Seq<NoteLines>,
    active: Seq<char>,
    name: Seq<char>,
    n: int,
    a: int,
    k: int,
)
    requires
        0 <= a < n <= notes.len(),
        scanned(notes[a], active),
        0 <= k < notes[a].lines@.len(),
        links_to(notes[a].lines@[k]@, name),
    ensures
        gathered(notes, active, name, n).contains(
            (notes[a].path@, k + 1, trim(notes[a].lines@[k]@)),
        ),
    decreases n,
{
    let e = (notes[a].path@, k + 1, trim(notes[a].lines@[k]@));
    let prev = gathered(notes, active, name, n - 1);
    let cur = gathered(notes, active, name, n);
    if a < n - 1 {
        lemma_gathered_contains(notes, active, name, n - 1, a, k);
        let w = choose|w: int| 0 <= w < prev.len() && prev[w] == e;
        if scanned(notes[n - 1], active) {
            assert(cur[w] == prev[w]);
        }
    } else {
        let lines = line_views(notes[a].lines@);
        assert(lines[k] == notes[a].lines@[k]@);
        lemma_line_entries_contains(notes[a].path@, lines, name, lines.len() as int, k);
        let tail = line_entries(notes[a].path@, lines, name, lines.len() as int);
        let w = choose|w: int| 0 <= w < tail.len() && tail[w] == e;
        assert(cur[prev.len() + w] == tail[w]);
    }
}

/// Backlink symmetry: when another markdown note `a` holds a line with a
/// wikilink to `name`, the backlinks gathered for the note at `active`
/// contain an entry for exactly that line of `a`.
pub proof fn backlink_symmetry(
    notes: Seq<NoteLines>,
    active: Seq<char>,
    name: Seq<char>,
    result: Seq<(Seq<char>, int, Seq<char>)>,
    a: int,
    k: int,
)
    requires
        result.to_multiset() == gathered(notes, active, name, notes.len() as int).to_multiset(),
        0 <= a < notes.len(),
        scanned(notes[a], active),
        0 <= k < notes[a].lines@.len(),
        links_to(notes[a].lines@[k]@, name),
    ensures
        result.contains((notes[a].path@, k + 1, trim(notes[a].lines@[k]@))),
{
    lemma_gathered_contains(notes, active, name, notes.len() as int, a, k);
    let e = (notes[a].path@, k + 1, trim(notes[a].lines@[k]@));
    assert(gathered(notes, active, name, notes.len() as int).to_multiset().count(e) > 0);
    assert(result.to_multiset().count(e) > 0);
}

} // verus!
