//! The sidebar file tree: directory listings arranged depth-first, with
//! directories before files and names in case-insensitive order.

use vstd::prelude::*;
use crate::links::{lower_of, lowered};
use crate::order::{lex_le, lex_le_exec};
use crate::text::{chars_of, string_of, trim, trimmed};
use crate::config::{join, join_path};

verus! {

/// One visible row of the tree.
#[derive(Clone, Debug)]
pub struct FileNode {
    pub path: String,
    pub name: String,
    pub depth: usize,
    pub is_dir: bool,
}

/// One entry of a directory listing.
#[derive(Clone, Debug)]
pub struct DirEntry {
    pub path: String,
    pub name: String,
    pub is_dir: bool,
}

/// The entries directly inside one directory, as the walker lists them.
#[derive(Clone, Debug)]
pub struct DirListing {
    pub dir: String,
    pub entries: Vec<DirEntry>,
}

/// An entry as characters: path, name, whether it is a directory.
pub open spec fn entry_view(e: DirEntry) -> (Seq<char>, Seq<char>, bool) {
    (e.path@, e.name@, e.is_dir)
}

/// The views of entries.
pub open spec fn entry_views(v: Seq<DirEntry>) -> Seq<(Seq<char>, Seq<char>, bool)> {
    v.map_values(|e: DirEntry| entry_view(e))
}

/// Sibling order: `a` may stand before `b`: directories first, then names
/// compared lower-cased.
pub open spec fn entry_before(a: (Seq<char>, Seq<char>, bool), b: (Seq<char>, Seq<char>, bool)) -> bool {
    if a.2 != b.2 {
        a.2
    } else {
        lex_le(lower_of(a.1), lower_of(b.1), false)
    }
}

/// Where `x` goes among sorted `r`, from position `j` on: after every
/// entry that may stand before it.
pub open spec fn insert_pos(r: Seq<(Seq<char>, Seq<char>, bool)>, x: (Seq<char>, Seq<char>, bool), j: int) -> int
    decreases r.len() - j,
{
    if 0 <= j < r.len() && entry_before(r[j], x) {
        insert_pos(r, x, j + 1)
    } else {
        j
    }
}

/// `s` in sibling order by stable insertion: entries that compare equal
/// keep their listing order.
pub open spec fn sibling_sorted(s: Seq<(Seq<char>, Seq<char>, bool)>) -> Seq<(Seq<char>, Seq<char>, bool)>
    decreases s.len(),
{
    if s.len() == 0 {
        Seq::empty()
    } else {
        let r = sibling_sorted(s.drop_last());
        r.insert(insert_pos(r, s.last(), 0), s.last())
    }
}

proof fn lemma_insert_pos(r: Seq<(Seq<char>, Seq<char>, bool)>, x: (Seq<char>, Seq<char>, bool), j: int)
    requires
        0 <= j <= r.len(),
    ensures
        j <= insert_pos(r, x, j) <= r.len(),
    decreases r.len() - j,
{
    if j < r.len() && entry_before(r[j], x) {
        lemma_insert_pos(r, x, j + 1);
    }
}

proof fn lemma_sorted_len(s: Seq<(Seq<char>, Seq<char>, bool)>)
    ensures
        sibling_sorted(s).len() == s.len(),
    decreases s.len(),
{
    if s.len() > 0 {
        lemma_sorted_len(s.drop_last());
        lemma_insert_pos(sibling_sorted(s.drop_last()), s.last(), 0);
    }
}

fn entry_before_exec(a: &DirEntry, b: &DirEntry) -> (r: bool)
    ensures
        r == entry_before(entry_view(*a), entry_view(*b)),
{
    if a.is_dir != b.is_dir {
        return a.is_dir;
    }
    let la = lowered(&chars_of(a.name.as_str()));
    let lb = lowered(&chars_of(b.name.as_str()));
    lex_le_exec(&la, &lb, false)
}

fn copy_entry(e: &DirEntry) -> (r: DirEntry)
    ensures
        entry_view(r) == entry_view(*e),
{
    DirEntry { path: e.path.clone(), name: e.name.clone(), is_dir: e.is_dir }
}

/// Sorts one directory's entries into sibling order, keeping the listing
/// order of entries that compare equal.
pub fn sort_entries(v: &Vec<DirEntry>) -> (r: Vec<DirEntry>)
    ensures
        entry_views(r@) == sibling_sorted(entry_views(v@)),
{
    let ghost all = entry_views(v@);
    let mut r: Vec<DirEntry> = Vec::new();
    let mut i: usize = 0;
    assert(all.take(0) == Seq::<(Seq<char>, Seq<char>, bool)>::empty());
    while i < v.len()
        invariant
            i <= v.len(),
            all == entry_views(v@),
            entry_views(r@) == sibling_sorted(all.take(i as int)),
        decreases v.len() - i,
    {
        let x = copy_entry(&v[i]);
        let ghost rv = entry_views(r@);
        proof {
            lemma_sorted_len(all.take(i as int));
        }
        let mut j: usize = 0;
        while j < r.len() && entry_before_exec(&r[j], &x)
            invariant
                j <= r.len(),
                rv == entry_views(r@),
                insert_pos(rv, entry_view(x), 0) == insert_pos(rv, entry_view(x), j as int),
            decreases r.len() - j,
        {
            j = j + 1;
        }
        r.insert(j, x);
        proof {
            assert(all.take(i + 1).drop_last() == all.take(i as int));
            assert(all.take(i + 1).last() == entry_view(x));
            assert(entry_views(r@) == rv.insert(j as int, entry_view(x)));
        }
        i = i + 1;
    }
    assert(all.take(v.len() as int) == all);
    r
}

/// A row as characters: path, name, depth, whether it is a directory.
pub open spec fn node_view(n: FileNode) -> (Seq<char>, Seq<char>, int, bool) {
    (n.path@, n.name@, n.depth as int, n.is_dir)
}

/// The views of rows.
pub open spec fn node_views(v: Seq<FileNode>) -> Seq<(Seq<char>, Seq<char>, int, bool)> {
    v.map_values(|n: FileNode| node_view(n))
}

/// Whether `path` is among the expanded directories.
pub open spec fn expanded_has(expanded: Seq<String>, path: Seq<char>) -> bool {
    exists|i: int| 0 <= i < expanded.len() && (#[trigger] expanded[i])@ == path
}

/// Index of the first listing of directory `dir` from `i` on.
pub open spec fn listing_index(ls: Seq<DirListing>, dir: Seq<char>, i: int) -> Option<int>
    decreases ls.len() - i,
{
    if i < 0 || i >= ls.len() {
        None
    } else if ls[i].dir@ == dir {
        Some(i)
    } else {
        listing_index(ls, dir, i + 1)
    }
}

proof fn lemma_listing_index(ls: Seq<DirListing>, dir: Seq<char>, i: int)
    requires
        0 <= i,
    ensures
        listing_index(ls, dir, i) matches Some(k) ==> i <= k < ls.len(),
    decreases ls.len() - i,
{
    if i < ls.len() && ls[i].dir@ != dir {
        lemma_listing_index(ls, dir, i + 1);
    }
}

/// The rows for directory `dir` at `depth`: its listed entries in sibling
/// order, each followed, when it is an expanded directory, by its own rows
/// one level deeper (at most `fuel` levels down).
pub open spec fn dir_rows(ls: Seq<DirListing>, expanded: Seq<String>, dir: Seq<char>, depth: int, fuel: int) -> Seq<
    (Seq<char>, Seq<char>, int, bool),
>
    decreases fuel, 1int, 0int,
{
    match listing_index(ls, dir, 0) {
        None => Seq::empty(),
        Some(k) => if 0 <= k < ls.len() {
            entries_rows(ls, expanded, sibling_sorted(entry_views(ls[k].entries@)), 0, depth, fuel)
        } else {
            Seq::empty()
        },
    }
}

/// The rows for sorted entries `es` from position `i` on.
pub open spec fn entries_rows(
    ls: Seq<DirListing>,
    expanded: Seq<String>,
    es: Seq<(Seq<char>, Seq<char>, bool)>,
    i: int,
    depth: int,
    fuel: int,
) -> Seq<(Seq<char>, Seq<char>, int, bool)>
    decreases fuel, 0int, es.len() - i,
{
    if i < 0 || i >= es.len() {
        Seq::empty()
    } else {
        let e = es[i];
        let sub = if e.2 && fuel > 0 && depth < usize::MAX && expanded_has(expanded, e.0) {
            dir_rows(ls, expanded, e.0, depth + 1, fuel - 1)
        } else {
            Seq::empty()
        };
        seq![(e.0, e.1, depth, e.2)] + sub + entries_rows(ls, expanded, es, i + 1, depth, fuel)
    }
}

/// What creating the typed entry means.
#[derive(Clone, Debug, PartialEq, Eq)]
pub enum CreatePlan {
    /// The name is blank: nothing to create.
    Nothing,
    /// A name ending in `/`: create this folder.
    Folder(String),
    /// Otherwise: create this note.
    Note(String),
}

/// Scanning the first `i` characters of `p` from the end: whether a `.`
/// after the first character of the last component comes before any `/`.
pub open spec fn ext_from(p: Seq<char>, i: int) -> bool
    decreases i,
{
    if i <= 0 || i > p.len() {
        false
    } else if p[i - 1] == '/' {
        false
    } else if p[i - 1] == '.' && i - 1 > 0 && p[i - 2] != '/' {
        true
    } else {
        ext_from(p, i - 1)
    }
}

/// Whether the last path component has a `.` after its first character.
pub open spec fn has_extension(p: Seq<char>) -> bool {
    ext_from(p, p.len() as int)
}

/// A note path: `.md` added when the last component has no extension.
pub open spec fn note_path(p: Seq<char>) -> Seq<char> {
    if has_extension(p) { p } else { p + ".md"@ }
}

fn extension_exec(p: &Vec<char>) -> (r: bool)
    ensures
        r == has_extension(p@),
{
    let mut i: usize = p.len();
    while i > 0
        invariant
            i <= p.len(),
            has_extension(p@) == ext_from(p@, i as int),
        decreases i,
    {
        let c = p[i - 1];
        if c == '/' {
            return false;
        }
        if c == '.' && i - 1 > 0 && p[i - 2] != '/' {
            return true;
        }
        i = i - 1;
    }
    false
}

/// The sidebar tree.
pub struct FileTree {
    pub root: String,
    pub nodes: Vec<FileNode>,
    pub selected: usize,
    /// Directories whose children are shown.
    pub expanded: Vec<String>,
    /// The name being typed for a new file or folder.
    pub create_input: Vec<char>,
}

/// The selection is on a node, or at 0 when there is none.
pub open spec fn selection_ok(t: FileTree) -> bool {
    t.selected == 0 || t.selected < t.nodes@.len()
}

impl FileTree {
    /// A tree rooted at `root`, with the root expanded and no rows yet.
    pub fn new(root: String) -> (r: FileTree)
        ensures
            r.root == root,
            r.nodes@.len() == 0,
            r.selected == 0,
            r.expanded@.len() == 1 && r.expanded@[0]@ == root@,
            r.create_input@.len() == 0,
    {
        let mut expanded: Vec<String> = Vec::new();
        expanded.push(root.clone());
        FileTree { root, nodes: Vec::new(), selected: 0, expanded, create_input: Vec::new() }
    }

    /// Whether the directory at `path` is expanded.
    pub fn is_expanded(&self, path: &String) -> (r: bool)
        ensures
            r == exists|i: int| 0 <= i < self.expanded@.len() && (#[trigger] self.expanded@[i])@ == path@,
    {
        let mut i: usize = 0;
        while i < self.expanded.len()
            invariant
                i <= self.expanded@.len(),
                forall|k: int| 0 <= k < i ==> (#[trigger] self.expanded@[k])@ != path@,
            decreases self.expanded.len() - i,
        {
            if self.expanded[i] == *path {
                return true;
            }
            i = i + 1;
        }
        false
    }

    fn listing_of(listings: &Vec<DirListing>, dir: &String) -> (r: Option<usize>)
        ensures
            r matches Some(i) ==> listing_index(listings@, dir@, 0) == Some(i as int),
            r is None ==> listing_index(listings@, dir@, 0) is None,
    {
        let mut i: usize = 0;
        while i < listings.len()
            invariant
                i <= listings@.len(),
                listing_index(listings@, dir@, 0) == listing_index(listings@, dir@, i as int),
            decreases listings.len() - i,
        {
            if listings[i].dir == *dir {
                return Some(i);
            }
            i = i + 1;
        }
        None
    }

    fn push_children(&mut self, listings: &Vec<DirListing>, dir: &String, depth: usize, fuel: usize)
        ensures
            node_views(final(self).nodes@) == node_views(old(self).nodes@) + dir_rows(
                listings@,
                old(self).expanded@,
                dir@,
                depth as int,
                fuel as int,
            ),
            final(self).selected == old(self).selected,
            final(self).root == old(self).root,
            final(self).expanded@ == old(self).expanded@,
            final(self).create_input@ == old(self).create_input@,
        decreases fuel, 1int, 0int,
    {
        let idx = match Self::listing_of(listings, dir) {
            Some(i) => i,
            None => {
                assert(node_views(self.nodes@) == node_views(self.nodes@) + Seq::<(Seq<char>, Seq<char>, int, bool)>::empty());
                return;
            },
        };
        proof {
            lemma_listing_index(listings@, dir@, 0);
        }
        let entries = sort_entries(&listings[idx].entries);
        let ghost es = entry_views(entries@);
        let ghost base = node_views(self.nodes@);
        let mut i: usize = 0;
        while i < entries.len()
            invariant
                i <= entries@.len(),
                es == entry_views(entries@),
                es == sibling_sorted(entry_views(listings@[idx as int].entries@)),
                listing_index(listings@, dir@, 0) == Some(idx as int),
                idx < listings@.len(),
                node_views(self.nodes@) + entries_rows(listings@, old(self).expanded@, es, i as int, depth as int, fuel as int)
                    == base + entries_rows(listings@, old(self).expanded@, es, 0, depth as int, fuel as int),
                self.selected == old(self).selected,
                self.root == old(self).root,
                self.expanded@ == old(self).expanded@,
                self.create_input@ == old(self).create_input@,
            decreases fuel, 0int, entries.len() - i,
        {
            let e = &entries[i];
            let ghost before = node_views(self.nodes@);
            self.nodes.push(FileNode { path: e.path.clone(), name: e.name.clone(), depth, is_dir: e.is_dir });
            let ghost after_push = node_views(self.nodes@);
            proof {
                assert(after_push == before.push((es[i as int].0, es[i as int].1, depth as int, es[i as int].2)));
            }
            let deeper = if e.is_dir && fuel > 0 && depth < usize::MAX {
                let open = self.is_expanded(&e.path);
                proof {
                    assert(open == expanded_has(self.expanded@, e.path@));
                }
                open
            } else {
                false
            };
            if deeper {
                self.push_children(listings, &e.path, depth + 1, fuel - 1);
            }
            proof {
                let x = es[i as int];
                assert(x == entry_view(*e));
                let sub = if x.2 && fuel > 0 && depth < usize::MAX && expanded_has(old(self).expanded@, x.0) {
                    dir_rows(listings@, old(self).expanded@, x.0, depth + 1, fuel - 1)
                } else {
                    Seq::empty()
                };
                if deeper {
                    assert(sub == dir_rows(listings@, old(self).expanded@, x.0, depth + 1, fuel - 1));
                } else {
                    assert(sub == Seq::<(Seq<char>, Seq<char>, int, bool)>::empty());
                    assert(after_push + sub == after_push);
                }
                assert(node_views(self.nodes@) == after_push + sub);
                assert(entries_rows(listings@, old(self).expanded@, es, i as int, depth as int, fuel as int)
                    == seq![(x.0, x.1, depth as int, x.2)] + sub + entries_rows(listings@, old(self).expanded@, es, i + 1, depth as int, fuel as int));
                assert(before + entries_rows(listings@, old(self).expanded@, es, i as int, depth as int, fuel as int)
                    == node_views(self.nodes@) + entries_rows(listings@, old(self).expanded@, es, i + 1, depth as int, fuel as int));
            }
            i = i + 1;
        }
        proof {
            assert(entries_rows(listings@, old(self).expanded@, es, i as int, depth as int, fuel as int) == Seq::<(Seq<char>, Seq<char>, int, bool)>::empty());
            assert(node_views(self.nodes@) == node_views(self.nodes@) + Seq::<(Seq<char>, Seq<char>, int, bool)>::empty());
        }
    }

    /// Rebuilds the rows from the directory listings: each listed
    /// directory's entries in sibling order, the children of an expanded
    /// directory right after it one level deeper. The selection stays where
    /// it was, moved onto the last row if the rows got fewer.
    pub fn refresh(&mut self, listings: &Vec<DirListing>)
        ensures
            node_views(final(self).nodes@) == dir_rows(listings@, old(self).expanded@, old(self).root@, 0, listings@.len() as int),
            selection_ok(*final(self)),
            final(self).nodes@.len() == 0 ==> final(self).selected == 0,
            final(self).nodes@.len() > 0 ==> final(self).selected == if old(self).selected < final(self).nodes@.len() {
                old(self).selected
            } else {
                (final(self).nodes@.len() - 1) as usize
            },
            final(self).root == old(self).root,
            final(self).expanded@ == old(self).expanded@,
            final(self).create_input@ == old(self).create_input@,
    {
        self.nodes = Vec::new();
        let root = self.root.clone();
        assert(node_views(self.nodes@) == Seq::<(Seq<char>, Seq<char>, int, bool)>::empty());
        self.push_children(listings, &root, 0, listings.len());
        assert(node_views(self.nodes@) == dir_rows(listings@, old(self).expanded@, old(self).root@, 0, listings@.len() as int));
        if self.nodes.len() == 0 {
            self.selected = 0;
        } else if self.selected >= self.nodes.len() {
            self.selected = self.nodes.len() - 1;
        }
    }

    /// Moves the selection by `delta` rows, clamped to the rows.
    pub fn move_selection(&mut self, delta: isize)
        ensures
            final(self).nodes@ == old(self).nodes@,
            old(self).nodes@.len() == 0 ==> final(self).selected == 0,
            old(self).nodes@.len() > 0 ==> final(self).selected as int == if old(self).selected + delta < 0 {
                0
            } else if old(self).selected + delta > old(self).nodes@.len() - 1 {
                old(self).nodes@.len() - 1
            } else {
                old(self).selected + delta
            },
            final(self).expanded@ == old(self).expanded@,
            final(self).create_input@ == old(self).create_input@,
            final(self).root == old(self).root,
    {
        if self.nodes.len() == 0 {
            self.selected = 0;
            return;
        }
        let max = (self.nodes.len() - 1) as i128;
        let next = self.selected as i128 + delta as i128;
        let clamped = if next < 0 {
            0
        } else if next > max {
            max
        } else {
            next
        };
        self.selected = clamped as usize;
    }

    /// The selected row.
    pub fn selected_node(&self) -> (r: Option<&FileNode>)
        ensures
            self.selected < self.nodes@.len() ==> r == Some(&self.nodes@[self.selected as int]),
            self.selected >= self.nodes@.len() ==> r is None,
    {
        if self.selected < self.nodes.len() {
            Some(&self.nodes[self.selected])
        } else {
            None
        }
    }

    /// Expands a collapsed selected directory or collapses an expanded one;
    /// returns whether it changed anything (the rows then need a refresh).
    pub fn toggle_selected_dir(&mut self) -> (r: bool)
        ensures
            final(self).nodes@ == old(self).nodes@,
            final(self).selected == old(self).selected,
            r == (old(self).selected < old(self).nodes@.len() && old(self).nodes@[old(self).selected as int].is_dir),
            !r ==> final(self).expanded@ == old(self).expanded@,
            r ==> {
                let p = old(self).nodes@[old(self).selected as int].path@;
                &&& expanded_has(final(self).expanded@, p) != expanded_has(old(self).expanded@, p)
                &&& forall|q: Seq<char>| q != p ==> (expanded_has(final(self).expanded@, q) <==> expanded_has(old(self).expanded@, q))
            },
    {
        if self.selected >= self.nodes.len() || !self.nodes[self.selected].is_dir {
            return false;
        }
        let path = self.nodes[self.selected].path.clone();
        if self.is_expanded(&path) {
            self.unexpand(&path);
        } else {
            let ghost ex = self.expanded@;
            self.expanded.push(path);
            proof {
                let v = self.expanded@;
                assert(v[v.len() - 1]@ == path@);
                assert forall|q: Seq<char>| q != path@ implies (expanded_has(v, q) <==> expanded_has(ex, q)) by {
                    if expanded_has(v, q) {
                        let j = choose|j: int| 0 <= j < v.len() && (#[trigger] v[j])@ == q;
                        assert(j < ex.len());
                        assert(ex[j] == v[j]);
                    }
                    if expanded_has(ex, q) {
                        let j = choose|j: int| 0 <= j < ex.len() && (#[trigger] ex[j])@ == q;
                        assert(v[j] == ex[j]);
                    }
                }
            }
        }
        true
    }

    fn unexpand(&mut self, path: &String)
        ensures
            forall|i: int| 0 <= i < final(self).expanded@.len() ==> (#[trigger] final(self).expanded@[i])@ != path@,
            forall|q: Seq<char>| q != path@ ==> (expanded_has(final(self).expanded@, q) <==> expanded_has(old(self).expanded@, q)),
            final(self).nodes@ == old(self).nodes@,
            final(self).selected == old(self).selected,
            final(self).root == old(self).root,
            final(self).create_input@ == old(self).create_input@,
    {
        let mut kept: Vec<String> = Vec::new();
        let mut i: usize = 0;
        while i < self.expanded.len()
            invariant
                i <= self.expanded@.len(),
                self.expanded@ == old(self).expanded@,
                forall|k: int| 0 <= k < kept@.len() ==> (#[trigger] kept@[k])@ != path@,
                forall|q: Seq<char>| q != path@ ==> (expanded_has(kept@, q) <==> expanded_has(self.expanded@.take(i as int), q)),
            decreases self.expanded.len() - i,
        {
            let ghost before = kept@;
            let ghost ex = self.expanded@;
            if self.expanded[i] != *path {
                kept.push(self.expanded[i].clone());
            }
            proof {
                assert(ex.take(i + 1) == ex.take(i as int).push(ex[i as int]));
                assert forall|q: Seq<char>| q != path@ implies (expanded_has(kept@, q) <==> expanded_has(ex.take(i + 1), q)) by {
                    assert(expanded_has(before, q) == expanded_has(ex.take(i as int), q));
                    if expanded_has(ex.take(i + 1), q) {
                        let j = choose|j: int| 0 <= j < ex.take(i + 1).len() && (#[trigger] ex.take(i + 1)[j])@ == q;
                        if j < i {
                            assert(ex.take(i as int)[j] == ex.take(i + 1)[j]);
                            assert(expanded_has(ex.take(i as int), q));
                            let k = choose|k: int| 0 <= k < before.len() && (#[trigger] before[k])@ == q;
                            assert(kept@[k] == before[k]);
                        } else {
                            assert(kept@[kept@.len() - 1]@ == q);
                        }
                    }
                    if expanded_has(kept@, q) {
                        let k = choose|k: int| 0 <= k < kept@.len() && (#[trigger] kept@[k])@ == q;
                        if k < before.len() {
                            assert(kept@[k] == before[k]);
                            assert(expanded_has(before, q));
                            let j = choose|j: int| 0 <= j < ex.take(i as int).len() && (#[trigger] ex.take(i as int)[j])@ == q;
                            assert(ex.take(i + 1)[j] == ex.take(i as int)[j]);
                        } else {
                            assert(ex.take(i + 1)[i as int]@ == q);
                        }
                    }
                }
            }
            i = i + 1;
        }
        assert(self.expanded@.take(self.expanded@.len() as int) == self.expanded@);
        self.expanded = kept;
    }

    /// On an expanded selected directory, collapses it and returns true
    /// (the rows then need a refresh); otherwise moves the selection to the
    /// row of the selected node's parent directory, `parent`, if it is shown.
    pub fn collapse_selected_or_parent(&mut self, parent: Option<String>) -> (r: bool)
        ensures
            final(self).nodes@ == old(self).nodes@,
            selection_ok(*old(self)) ==> selection_ok(*final(self)),
            r ==> forall|i: int| 0 <= i < final(self).expanded@.len() ==> (#[trigger] final(self).expanded@[i])@
                != old(self).nodes@[old(self).selected as int].path@,
            !r ==> final(self).expanded@ == old(self).expanded@,
            !r && final(self).selected != old(self).selected ==> (parent matches Some(p)
                && final(self).nodes@[final(self).selected as int].path@ == p@),
            r <==> old(self).selected < old(self).nodes@.len() && old(self).nodes@[old(self).selected as int].is_dir
                && expanded_has(old(self).expanded@, old(self).nodes@[old(self).selected as int].path@),
            !r && (parent matches Some(p) && exists|i: int| 0 <= i < old(self).nodes@.len()
                && (#[trigger] old(self).nodes@[i]).path@ == p@) && old(self).selected < old(self).nodes@.len()
                ==> final(self).nodes@[final(self).selected as int].path@ == parent->Some_0@
                && forall|i: int| 0 <= i < final(self).selected ==> (#[trigger] old(self).nodes@[i]).path@ != parent->Some_0@,
    {
        if self.selected >= self.nodes.len() {
            return false;
        }
        let node_path = self.nodes[self.selected].path.clone();
        let expanded_dir = self.nodes[self.selected].is_dir && self.is_expanded(&node_path);
        if expanded_dir {
            self.unexpand(&node_path);
            return true;
        }
        let ghost sel = self.selected as int;
        assert(!(old(self).nodes@[sel].is_dir && expanded_has(old(self).expanded@, old(self).nodes@[sel].path@)));
        let target = match &parent {
            Some(p) => p,
            None => {
                return false;
            },
        };
        let mut i: usize = 0;
        while i < self.nodes.len()
            invariant
                i <= self.nodes@.len(),
                self.nodes@ == old(self).nodes@,
                self.selected == old(self).selected,
                self.expanded@ == old(self).expanded@,
                parent == Some(*target),
                sel == old(self).selected,
                old(self).selected < old(self).nodes@.len(),
                !(old(self).nodes@[sel].is_dir && expanded_has(old(self).expanded@, old(self).nodes@[sel].path@)),
                forall|k: int| 0 <= k < i ==> (#[trigger] old(self).nodes@[k]).path@ != target@,
            decreases self.nodes.len() - i,
        {
            if self.nodes[i].path == *target {
                self.selected = i;
                assert(self.nodes@[i as int].path@ == target@);
                return false;
            }
            i = i + 1;
        }
        false
    }

    /// What creating the typed name means: nothing for a blank name; a
    /// folder for a name ending in `/`; else a note, with `.md` added when
    /// the name has no extension. Either goes into `create_target_base_dir`.
    pub fn plan_create(&self, parent: Option<String>) -> (r: CreatePlan)
        ensures
            trim(self.create_input@).len() == 0 ==> r == CreatePlan::Nothing,
            trim(self.create_input@).len() > 0 ==> ({
                let base = if self.selected < self.nodes@.len() && self.nodes@[self.selected as int].is_dir {
                    self.nodes@[self.selected as int].path@
                } else if self.selected < self.nodes@.len() {
                    match parent {
                        Some(p) => p@,
                        None => self.root@,
                    }
                } else {
                    self.root@
                };
                let target = join_path(base, trim(self.create_input@));
                if trim(self.create_input@).last() == '/' {
                    r matches CreatePlan::Folder(f) && f@ == target
                } else {
                    r matches CreatePlan::Note(n) && n@ == note_path(target)
                }
            }),
    {
        let input = trimmed(&self.create_input);
        if input.len() == 0 {
            return CreatePlan::Nothing;
        }
        let base = self.create_target_base_dir(parent);
        let target = join(&base, &string_of(&input));
        if input[input.len() - 1] == '/' {
            return CreatePlan::Folder(target);
        }
        let t = chars_of(target.as_str());
        if extension_exec(&t) {
            CreatePlan::Note(target)
        } else {
            let mut v = t;
            v.push('.');
            v.push('m');
            v.push('d');
            proof {
                reveal_strlit(".md");
                assert(v@ == t@ + ".md"@);
            }
            CreatePlan::Note(string_of(&v))
        }
    }

    /// Starts typing a new entry's name.
    pub fn begin_create(&mut self)
        ensures
            final(self).create_input@.len() == 0,
            final(self).nodes@ == old(self).nodes@,
            final(self).selected == old(self).selected,
            final(self).expanded@ == old(self).expanded@,
    {
        self.create_input = Vec::new();
    }

    /// The directory a new entry goes into: the selected directory, else
    /// the selected file's directory `parent` (or the root when it has
    /// none), else the root.
    pub fn create_target_base_dir(&self, parent: Option<String>) -> (r: String)
        ensures
            self.selected < self.nodes@.len() && self.nodes@[self.selected as int].is_dir ==> r@
                == self.nodes@[self.selected as int].path@,
            self.selected < self.nodes@.len() && !self.nodes@[self.selected as int].is_dir ==> r@ == match parent {
                Some(p) => p@,
                None => self.root@,
            },
            self.selected >= self.nodes@.len() ==> r@ == self.root@,
    {
        if self.selected < self.nodes.len() {
            if self.nodes[self.selected].is_dir {
                self.nodes[self.selected].path.clone()
            } else {
                match parent {
                    Some(p) => p,
                    None => self.root.clone(),
                }
            }
        } else {
            self.root.clone()
        }
    }
}

} // verus!
