//! A text buffer: rope storage, a cursor kept on a character boundary of an
//! existing line, a scroll viewport and the buffer's save state.

use vstd::prelude::*;
use crate::cursor::CursorState;
use crate::markdown::{run_end, lemma_run_end};

verus! {

#[verifier::external_type_specification]
#[verifier::external_body]
pub struct ExRope(ropey::Rope);

/// The characters a rope holds.
pub uninterp spec fn rope_text(r: ropey::Rope) -> Seq<char>;

/// Relies on `Rope::new`: an empty rope.
#[verifier::external_body]
fn rope_new() -> (r: ropey::Rope)
    ensures
        rope_text(r) == Seq::<char>::empty(),
{
    ropey::Rope::new()
}

/// Relies on `Rope::from_str`: a rope holding exactly the given text.
#[verifier::external_body]
fn rope_from_str(s: &str) -> (r: ropey::Rope)
    ensures
        rope_text(r) == s@,
{
    ropey::Rope::from_str(s)
}

/// Relies on `Rope::len_chars`.
#[verifier::external_body]
fn rope_len_chars(r: &ropey::Rope) -> (n: usize)
    ensures
        n == rope_text(*r).len(),
{
    r.len_chars()
}

/// Relies on `Rope::len_lines`: one more than the number of line feeds
/// (the crate is built without its CR and Unicode line-break features).
#[verifier::external_body]
fn rope_len_lines(r: &ropey::Rope) -> (n: usize)
    ensures
        n == line_count(rope_text(*r)),
{
    r.len_lines()
}

/// Relies on `Rope::line_to_char`: the char index where a line starts.
#[verifier::external_body]
fn rope_line_to_char(r: &ropey::Rope, line: usize) -> (c: usize)
    requires
        line < line_count(rope_text(*r)),
    ensures
        c == line_start(rope_text(*r), line as int),
{
    r.line_to_char(line)
}

/// Relies on `Rope::char`: the char at an index.
#[verifier::external_body]
fn rope_char(r: &ropey::Rope, i: usize) -> (c: char)
    requires
        i < rope_text(*r).len(),
    ensures
        c == rope_text(*r)[i as int],
{
    r.char(i)
}

/// Relies on `Rope::insert_char`: inserts one char at a char index.
#[verifier::external_body]
fn rope_insert_char(r: &mut ropey::Rope, i: usize, c: char)
    requires
        i <= rope_text(*old(r)).len(),
    ensures
        rope_text(*final(r)) == rope_text(*old(r)).insert(i as int, c),
{
    r.insert_char(i, c)
}

/// Relies on `Rope::remove`: removes the chars in `start..end`.
#[verifier::external_body]
fn rope_remove(r: &mut ropey::Rope, start: usize, end: usize)
    requires
        start <= end <= rope_text(*old(r)).len(),
    ensures
        rope_text(*final(r)) == rope_text(*old(r)).subrange(0, start as int) + rope_text(
            *old(r),
        ).subrange(end as int, rope_text(*old(r)).len() as int),
{
    r.remove(start..end)
}

/// Relies on `Rope`'s `Display`: the whole text as a string.
#[verifier::external_body]
fn rope_to_string(r: &ropey::Rope) -> (s: String)
    ensures
        s@ == rope_text(*r),
{
    r.to_string()
}

/// Number of line feeds in `s`.
pub open spec fn newlines(s: Seq<char>) -> nat
    decreases s.len(),
{
    if s.len() == 0 {
        0
    } else {
        newlines(s.drop_last()) + if s.last() == '\n' { 1nat } else { 0nat }
    }
}

/// Number of lines of `s`: one more than its line feeds.
pub open spec fn line_count(s: Seq<char>) -> nat {
    newlines(s) + 1
}

/// Char index where line `i` starts: just past the `i`-th line feed.
pub open spec fn line_start(s: Seq<char>, i: int) -> int
    decreases i,
{
    if i <= 0 {
        0
    } else {
        run_end(s, line_start(s, i - 1), '\n') + 1
    }
}

/// Char index where line `i` ends: its line feed, or the end of the text.
pub open spec fn line_end(s: Seq<char>, i: int) -> int {
    run_end(s, line_start(s, i), '\n')
}

/// The text of line `i`, without its line feed and without a carriage
/// return before it.
pub open spec fn line_of(s: Seq<char>, i: int) -> Seq<char> {
    let raw = s.subrange(line_start(s, i), line_end(s, i));
    if raw.len() > 0 && raw.last() == '\r' {
        raw.drop_last()
    } else {
        raw
    }
}

proof fn lemma_newlines_step(s: Seq<char>, k: int)
    requires
        0 <= k < s.len(),
    ensures
        newlines(s.take(k + 1)) == newlines(s.take(k)) + if s[k] == '\n' { 1nat } else { 0nat },
{
    assert(s.take(k + 1).drop_last() == s.take(k));
}

proof fn lemma_newlines_run(s: Seq<char>, p: int, q: int)
    requires
        0 <= p <= q <= s.len(),
        forall|j: int| p <= j < q ==> s[j] != '\n',
    ensures
        newlines(s.take(q)) == newlines(s.take(p)),
    decreases q - p,
{
    if p < q {
        lemma_newlines_run(s, p, q - 1);
        lemma_newlines_step(s, q - 1);
    }
}

proof fn lemma_newlines_mono(s: Seq<char>, k: int)
    requires
        0 <= k <= s.len(),
    ensures
        newlines(s.take(k)) <= newlines(s),
    decreases s.len() - k,
{
    if k < s.len() {
        lemma_newlines_step(s, k);
        lemma_newlines_mono(s, k + 1);
    } else {
        assert(s.take(k) == s);
    }
}

/// Where lines start and end: every line of `s` lies within the text, a
/// line other than the last ends at a line feed that the next line follows,
/// and the last line runs to the end of the text.
pub proof fn lemma_lines(s: Seq<char>, i: int)
    requires
        0 <= i < line_count(s),
    ensures
        0 <= line_start(s, i) <= line_end(s, i) <= s.len(),
        i > 0 ==> line_start(s, i) >= 1 && s[line_start(s, i) - 1] == '\n' && line_end(s, i - 1)
            == line_start(s, i) - 1,
        i + 1 < line_count(s) ==> line_end(s, i) < s.len() && s[line_end(s, i)] == '\n',
        i + 1 == line_count(s) ==> line_end(s, i) == s.len(),
        forall|j: int| line_start(s, i) <= j < line_end(s, i) ==> s[j] != '\n',
        newlines(s.take(line_start(s, i))) == i,
        newlines(s.take(line_end(s, i))) == i,
    decreases i,
{
    if i == 0 {
        assert(s.take(0) == Seq::<char>::empty());
    } else {
        lemma_lines(s, i - 1);
        lemma_newlines_step(s, line_end(s, i - 1));
    }
    let p = line_start(s, i);
    lemma_run_end(s, p, '\n');
    let q = line_end(s, i);
    lemma_newlines_run(s, p, q);
    if q < s.len() {
        lemma_newlines_step(s, q);
        lemma_newlines_mono(s, q + 1);
    } else {
        assert(s.take(q) == s);
    }
}

/// UTF-8 length of a char.
pub open spec fn clen(c: char) -> nat {
    if (c as u32) < 0x80 {
        1
    } else if (c as u32) < 0x800 {
        2
    } else if (c as u32) < 0x10000 {
        3
    } else {
        4
    }
}

/// UTF-8 length of a char sequence.
pub open spec fn blen(s: Seq<char>) -> nat
    decreases s.len(),
{
    if s.len() == 0 {
        0
    } else {
        blen(s.drop_last()) + clen(s.last())
    }
}

pub proof fn lemma_blen_step(s: Seq<char>, k: int)
    requires
        0 <= k < s.len(),
    ensures
        blen(s.take(k + 1)) == blen(s.take(k)) + clen(s[k]),
{
    assert(s.take(k + 1).drop_last() == s.take(k));
}

proof fn lemma_blen_mono(s: Seq<char>, j: int, k: int)
    requires
        0 <= j <= k <= s.len(),
    ensures
        blen(s.take(j)) <= blen(s.take(k)),
        j < k ==> blen(s.take(j)) < blen(s.take(k)),
    decreases k - j,
{
    if j < k {
        lemma_blen_step(s, k - 1);
        lemma_blen_mono(s, j, k - 1);
    }
}

/// Byte length of a char.
pub fn char_len(c: char) -> (r: usize)
    ensures
        r == clen(c),
{
    let u = c as u32;
    if u < 0x80 {
        1
    } else if u < 0x800 {
        2
    } else if u < 0x10000 {
        3
    } else {
        4
    }
}

/// Number of leading chars of `line` from `k` on whose bytes fit within
/// `col` bytes: the char position of the last character boundary at or
/// before byte `col`.
pub open spec fn fit_from(line: Seq<char>, col: int, k: int) -> int
    decreases line.len() - k,
{
    if 0 <= k < line.len() && blen(line.take(k + 1)) <= col {
        fit_from(line, col, k + 1)
    } else {
        k
    }
}

/// The char position of the last character boundary of `line` at or before
/// byte `col`.
pub open spec fn fit(line: Seq<char>, col: int) -> int {
    fit_from(line, col, 0)
}

/// Byte `col` lies on a character boundary of `line`.
pub open spec fn on_boundary(line: Seq<char>, col: int) -> bool {
    exists|k: int| 0 <= k <= line.len() && #[trigger] blen(line.take(k)) == col
}

proof fn lemma_fit_from(line: Seq<char>, col: int, k: int)
    requires
        0 <= k <= line.len(),
        blen(line.take(k)) <= col,
    ensures
        k <= fit_from(line, col, k) <= line.len(),
        blen(line.take(fit_from(line, col, k))) <= col,
        fit_from(line, col, k) < line.len() ==> blen(line.take(fit_from(line, col, k) + 1)) > col,
    decreases line.len() - k,
{
    if k < line.len() && blen(line.take(k + 1)) <= col {
        lemma_fit_from(line, col, k + 1);
    }
}

/// The boundary found by `fit` is the one at `col` when `col` is a boundary.
pub proof fn lemma_fit(line: Seq<char>, col: int)
    requires
        0 <= col,
    ensures
        0 <= fit(line, col) <= line.len(),
        blen(line.take(fit(line, col))) <= col,
        on_boundary(line, col) ==> blen(line.take(fit(line, col))) == col,
        fit(line, col) < line.len() ==> blen(line.take(fit(line, col) + 1)) > col,
        col <= blen(line) ==> (fit(line, col) < line.len() || blen(line.take(fit(line, col))) == col),
{
    assert(line.take(0) == Seq::<char>::empty());
    lemma_fit_from(line, col, 0);
    let f = fit(line, col);
    if on_boundary(line, col) {
        let k = choose|k: int| 0 <= k <= line.len() && #[trigger] blen(line.take(k)) == col;
        if k < f {
            lemma_blen_mono(line, k, f);
        } else if k > f {
            lemma_blen_mono(line, f + 1, k);
        }
    }
    if col <= blen(line) && f == line.len() {
        assert(line.take(line.len() as int) == line);
    }
}

/// A cursor is valid for text `s`: its row is a line of `s` and its column
/// is a character boundary of that line.
pub open spec fn cursor_valid(s: Seq<char>, c: CursorState) -> bool {
    c.row < line_count(s) && on_boundary(line_of(s, c.row as int), c.col as int)
}

/// Where `clamp_cursor` puts a cursor at `row`, `col`: the last line if the
/// row is past it, and the last character boundary of that line at or
/// before `col`.
pub open spec fn clamped_row(s: Seq<char>, row: int) -> int {
    if row < line_count(s) {
        row
    } else {
        line_count(s) - 1
    }
}

pub open spec fn clamped_col(s: Seq<char>, row: int, col: int) -> int {
    let line = line_of(s, clamped_row(s, row));
    blen(line.take(fit(line, col))) as int
}

/// The char index of a valid cursor in the text.
pub open spec fn cursor_index(s: Seq<char>, c: CursorState) -> int {
    line_start(s, c.row as int) + fit(line_of(s, c.row as int), c.col as int)
}

/// Viewport state for scroll tracking.
#[derive(Clone, Copy, Debug, PartialEq, Eq, Structural)]
pub struct Viewport {
    pub top_line: usize,
    pub height: u16,
    pub scroll_off: u16,
}

impl Viewport {
    /// The default viewport: top of the text, 24 rows, a margin of 5.
    pub fn new() -> (r: Viewport)
        ensures
            r == (Viewport { top_line: 0, height: 24, scroll_off: 5 }),
    {
        Viewport { top_line: 0, height: 24, scroll_off: 5 }
    }
}

impl Default for Viewport {
    fn default() -> (r: Viewport)
        ensures
            r == (Viewport { top_line: 0, height: 24, scroll_off: 5 }),
    {
        Viewport::new()
    }
}

/// Where `scroll_to_cursor` puts the top line: at 0 when all lines fit the
/// height; else moved just enough that the cursor row keeps `scroll_off`
/// rows above it and below it, but never below the cursor row itself.
pub open spec fn scrolled_top(v: Viewport, row: int, lines: int) -> int {
    let off = v.scroll_off as int;
    let h = v.height as int;
    let t1 = if row < v.top_line + off {
        if row >= off { row - off } else { 0 }
    } else {
        v.top_line as int
    };
    if lines <= h {
        0
    } else if row + off >= t1 + h {
        let t2 = if row + off + 1 >= h { row + off + 1 - h } else { 0 };
        if t2 > row { row } else { t2 }
    } else {
        t1
    }
}

/// A single text buffer backed by a rope.
pub struct Buffer {
    /// The text.
    pub rope: ropey::Rope,
    /// The cursor; `wf` keeps it on a character boundary of an existing line.
    pub cursor: CursorState,
    /// The file the buffer belongs to; none for an unsaved scratch buffer.
    pub path: Option<String>,
    /// Whether the text changed since it was last saved.
    pub dirty: bool,
    pub viewport: Viewport,
    /// When the pending save falls due, in milliseconds of a monotonic clock.
    pub save_deadline: Option<u64>,
}

/// Cursor movements.
#[derive(Clone, Copy, Debug, PartialEq, Eq, Structural)]
pub enum Direction {
    Up,
    Down,
    Left,
    Right,
    LineStart,
    LineEnd,
}

impl Buffer {
    /// The buffer's characters.
    pub open spec fn text(&self) -> Seq<char> {
        rope_text(self.rope)
    }

    /// The buffer's cursor.
    pub open spec fn cur(&self) -> CursorState {
        self.cursor
    }

    /// The cursor is valid for the text.
    pub open spec fn wf(&self) -> bool {
        cursor_valid(self.text(), self.cur())
    }

    /// Create a new empty buffer.
    pub fn new() -> (r: Buffer)
        ensures
            r.wf(),
            r.text() == Seq::<char>::empty(),
            r.cur() == CursorState::new_spec(),
            r.path is None,
            !r.dirty,
            r.viewport == (Viewport { top_line: 0, height: 24, scroll_off: 5 }),
            r.save_deadline is None,
    {
        let r = Buffer {
            rope: rope_new(),
            cursor: CursorState::new(),
            path: None,
            dirty: false,
            viewport: Viewport::new(),
            save_deadline: None,
        };
        proof {
            lemma_first_line(r.text());
        }
        r
    }

    /// A clean buffer for the file at `path` holding `text`.
    pub fn from_file(path: String, text: &str) -> (r: Buffer)
        ensures
            r.wf(),
            r.text() == text@,
            r.cur() == CursorState::new_spec(),
            r.path == Some(path),
            !r.dirty,
            r.viewport == (Viewport { top_line: 0, height: 24, scroll_off: 5 }),
            r.save_deadline is None,
    {
        let r = Buffer {
            rope: rope_from_str(text),
            cursor: CursorState::new(),
            path: Some(path),
            dirty: false,
            viewport: Viewport::new(),
            save_deadline: None,
        };
        proof {
            lemma_first_line(r.text());
        }
        r
    }

    /// The cursor.
    pub fn cursor(&self) -> (r: CursorState)
        ensures
            r == self.cur(),
    {
        self.cursor
    }

    /// Total number of lines in the buffer.
    pub fn line_count(&self) -> (r: usize)
        ensures
            r == line_count(self.text()),
    {
        rope_len_lines(&self.rope)
    }

    /// The whole text: what a save writes. Loading it back with `from_file`
    /// gives a buffer with exactly this text.
    pub fn contents(&self) -> (r: String)
        ensures
            r@ == self.text(),
    {
        rope_to_string(&self.rope)
    }

    /// The characters of line `idx`, without its terminator.
    pub fn line_chars(&self, idx: usize) -> (r: Vec<char>)
        requires
            idx < line_count(self.text()),
        ensures
            r@ == line_of(self.text(), idx as int),
    {
        let ghost s = self.text();
        proof {
            lemma_lines(s, idx as int);
        }
        let start = rope_line_to_char(&self.rope, idx);
        let n = rope_len_chars(&self.rope);
        let mut v: Vec<char> = Vec::new();
        let mut j = start;
        proof {
            lemma_run_end(s, start as int, '\n');
        }
        while j < n && rope_char(&self.rope, j) != '\n'
            invariant
                s == self.text(),
                n == s.len(),
                start <= j <= n,
                start == line_start(s, idx as int),
                run_end(s, j as int, '\n') == line_end(s, idx as int),
                v@ == s.subrange(start as int, j as int),
            decreases n - j,
        {
            v.push(rope_char(&self.rope, j));
            assert(s.subrange(start as int, j + 1) == s.subrange(start as int, j as int).push(s[j as int]));
            j = j + 1;
        }
        if v.len() > 0 && v[v.len() - 1] == '\r' {
            v.pop();
        }
        v
    }

    /// The text of line `idx` without its terminator, or none past the last line.
    pub fn line_text(&self, idx: usize) -> (r: Option<String>)
        ensures
            r is Some <==> idx < line_count(self.text()),
            r matches Some(t) ==> t@ == line_of(self.text(), idx as int),
    {
        if idx >= self.line_count() {
            return None;
        }
        let v = self.line_chars(idx);
        Some(crate::text::string_of(&v))
    }
}

proof fn lemma_newlines_le(s: Seq<char>)
    ensures
        newlines(s) <= s.len(),
    decreases s.len(),
{
    if s.len() > 0 {
        lemma_newlines_le(s.drop_last());
    }
}

/// The line's raw span bounds the line text.
proof fn lemma_line_of(s: Seq<char>, i: int)
    requires
        0 <= i < line_count(s),
    ensures
        line_start(s, i) + line_of(s, i).len() <= line_end(s, i) <= s.len(),
        forall|j: int| 0 <= j < line_of(s, i).len() ==> #[trigger] line_of(s, i)[j] == s[line_start(s, i) + j],
{
    lemma_lines(s, i);
}

/// Char position and byte offset of the last boundary of `line` at or before `col`.
fn fit_exec(line: &Vec<char>, col: usize) -> (r: (usize, usize))
    ensures
        r.0 == fit(line@, col as int),
        r.1 == blen(line@.take(r.0 as int)),
{
    let mut k: usize = 0;
    let mut acc: usize = 0;
    assert(line@.take(0) == Seq::<char>::empty());
    while k < line.len() && col - acc >= char_len(line[k])
        invariant
            k <= line.len(),
            acc <= col,
            acc == blen(line@.take(k as int)),
            fit(line@, col as int) == fit_from(line@, col as int, k as int),
        decreases line.len() - k,
    {
        proof {
            lemma_blen_step(line@, k as int);
        }
        acc = acc + char_len(line[k]);
        k = k + 1;
    }
    proof {
        if k < line.len() {
            lemma_blen_step(line@, k as int);
        }
    }
    (k, acc)
}

/// The cursor after a movement, before clamping: rows keep the sticky
/// column; left and right step over one character; line start and end jump
/// to the ends of the line and set the sticky column.
pub open spec fn moved(s: Seq<char>, c: CursorState, dir: Direction) -> CursorState {
    let line = line_of(s, c.row as int);
    let k = fit(line, c.col as int);
    match dir {
        Direction::Up => if c.row > 0 {
            CursorState { row: (c.row - 1) as usize, col: c.desired_col, ..c }
        } else {
            c
        },
        Direction::Down => if c.row + 1 < line_count(s) {
            CursorState { row: (c.row + 1) as usize, col: c.desired_col, ..c }
        } else {
            c
        },
        Direction::Left => if c.col > 0 && k > 0 {
            CursorState {
                col: blen(line.take(k - 1)) as usize,
                desired_col: blen(line.take(k - 1)) as usize,
                ..c
            }
        } else {
            c
        },
        Direction::Right => if k < line.len() && blen(line.take(k + 1)) <= usize::MAX {
            CursorState {
                col: blen(line.take(k + 1)) as usize,
                desired_col: blen(line.take(k + 1)) as usize,
                ..c
            }
        } else {
            c
        },
        Direction::LineStart => CursorState { col: 0, desired_col: 0, ..c },
        Direction::LineEnd => if blen(line) <= usize::MAX {
            CursorState { col: blen(line) as usize, desired_col: blen(line) as usize, ..c }
        } else {
            c
        },
    }
}

impl Buffer {
    /// Keeps the cursor within bounds: the row moves to the last line if it
    /// is past it, and the column to the last character boundary of that
    /// line at or before it.
    pub fn clamp_cursor(&mut self)
        ensures
            final(self).wf(),
            final(self).rope == old(self).rope,
            final(self).cursor.row == clamped_row(old(self).text(), old(self).cursor.row as int),
            final(self).cursor.col == clamped_col(
                old(self).text(),
                old(self).cursor.row as int,
                old(self).cursor.col as int,
            ),
            final(self).cursor.desired_col == old(self).cursor.desired_col,
            final(self).cursor.selection == old(self).cursor.selection,
            final(self).path == old(self).path,
            final(self).dirty == old(self).dirty,
            final(self).viewport == old(self).viewport,
            final(self).save_deadline == old(self).save_deadline,
    {
        let lc = self.line_count();
        if self.cursor.row >= lc {
            self.cursor.row = lc - 1;
        }
        let line = self.line_chars(self.cursor.row);
        let (k, bytes) = fit_exec(&line, self.cursor.col);
        proof {
            lemma_fit(line@, self.cursor.col as int);
        }
        self.cursor.col = bytes;
        proof {
            assert(blen(line@.take(k as int)) == bytes);
        }
    }

    /// The char index of the cursor.
    fn cursor_char(&self) -> (r: usize)
        requires
            self.wf(),
        ensures
            r == cursor_index(self.text(), self.cursor),
            r <= line_end(self.text(), self.cursor.row as int),
            r <= self.text().len(),
    {
        let line = self.line_chars(self.cursor.row);
        let (k, _) = fit_exec(&line, self.cursor.col);
        proof {
            lemma_fit(line@, self.cursor.col as int);
            lemma_line_of(self.text(), self.cursor.row as int);
        }
        let start = rope_line_to_char(&self.rope, self.cursor.row);
        // The rope's length bounds the sum below.
        let _len = rope_len_chars(&self.rope);
        start + k
    }

    /// Inserts a character at the cursor and moves the cursor past it.
    pub fn insert_char(&mut self, ch: char)
        requires
            old(self).wf(),
        ensures
            final(self).wf(),
            final(self).text() == old(self).text().insert(cursor_index(old(self).text(), old(self).cursor), ch),
            final(self).cursor.row == clamped_row(final(self).text(), old(self).cursor.row as int),
            final(self).cursor.col == clamped_col(
                final(self).text(),
                old(self).cursor.row as int,
                if old(self).cursor.col + clen(ch) <= usize::MAX { old(self).cursor.col + clen(ch) } else { usize::MAX as int },
            ),
            final(self).cursor.desired_col == old(self).cursor.desired_col,
            final(self).cursor.selection == old(self).cursor.selection,
            final(self).dirty,
            final(self).path == old(self).path,
            final(self).viewport == old(self).viewport,
            final(self).save_deadline == old(self).save_deadline,
    {
        let pos = self.cursor_char();
        rope_insert_char(&mut self.rope, pos, ch);
        let w = char_len(ch);
        if self.cursor.col <= usize::MAX - w {
            self.cursor.col = self.cursor.col + w;
        } else {
            self.cursor.col = usize::MAX;
        }
        self.dirty = true;
        self.clamp_cursor();
    }

    /// Breaks the line at the cursor; the cursor goes to the start of the
    /// new line.
    pub fn insert_newline(&mut self)
        requires
            old(self).wf(),
        ensures
            final(self).wf(),
            final(self).text() == old(self).text().insert(cursor_index(old(self).text(), old(self).cursor), '\n'),
            final(self).cursor.row == clamped_row(final(self).text(), old(self).cursor.row + 1),
            final(self).cursor.col == 0,
            final(self).cursor.desired_col == 0,
            final(self).cursor.selection == old(self).cursor.selection,
            final(self).dirty,
            final(self).path == old(self).path,
            final(self).viewport == old(self).viewport,
            final(self).save_deadline == old(self).save_deadline,
    {
        let pos = self.cursor_char();
        proof {
            lemma_newlines_le(self.text());
        }
        rope_insert_char(&mut self.rope, pos, '\n');
        let n = rope_len_chars(&self.rope);
        self.cursor.row = self.cursor.row + 1;
        self.cursor.col = 0;
        self.cursor.desired_col = 0;
        self.dirty = true;
        self.clamp_cursor();
        proof {
            let line = line_of(self.text(), self.cursor.row as int);
            lemma_fit(line, 0);
        }
    }

    /// Deletes the character before the cursor (backspace). At the start of
    /// a line other than the first, the whole line terminator before it
    /// (`\n` or `\r\n`) goes, the line joins the one above and the cursor
    /// lands where that line ended; at the start of the text nothing happens.
    pub fn delete_char_before(&mut self)
        requires
            old(self).wf(),
        ensures
            final(self).wf(),
            final(self).cursor.desired_col == old(self).cursor.desired_col,
            final(self).cursor.selection == old(self).cursor.selection,
            final(self).path == old(self).path,
            final(self).viewport == old(self).viewport,
            final(self).save_deadline == old(self).save_deadline,
            ({
                let s = old(self).text();
                let c = old(self).cursor;
                let i = cursor_index(s, c);
                let line = line_of(s, c.row as int);
                if c.row == 0 && c.col == 0 {
                    *final(self) == *old(self)
                } else {
                    &&& final(self).dirty
                    &&& 0 < i <= s.len()
                    &&& c.col > 0 ==> final(self).text() == s.remove(i - 1)
                    &&& c.col == 0 ==> final(self).text() == s.subrange(0, i - terminator_len(s, i)) + s.subrange(
                        i,
                        s.len() as int,
                    )
                    &&& c.col == 0 ==> final(self).cursor.row == clamped_row(final(self).text(), c.row - 1)
                        && final(self).cursor.col == clamped_col(
                        final(self).text(),
                        c.row - 1,
                        blen(line_of(s, c.row - 1).take(fit(line_of(s, c.row - 1), usize::MAX as int))) as int,
                    )
                    &&& c.col > 0 ==> final(self).cursor.row == clamped_row(final(self).text(), c.row as int)
                        && final(self).cursor.col == clamped_col(
                        final(self).text(),
                        c.row as int,
                        c.col - clen(line[fit(line, c.col as int) - 1]),
                    )
                }
            }),
    {
        if self.cursor.col == 0 && self.cursor.row == 0 {
            return;
        }
        let ghost s = self.text();
        let ghost c = self.cursor;
        let pos = self.cursor_char();
        let line = self.line_chars(self.cursor.row);
        proof {
            lemma_fit(line@, c.col as int);
            lemma_lines(s, c.row as int);
            assert(line@.take(0) == Seq::<char>::empty());
        }
        if self.cursor.col == 0 {
            let prev = self.line_chars(self.cursor.row - 1);
            let (_, prev_len) = fit_exec(&prev, usize::MAX);
            proof {
                lemma_fit(prev@, usize::MAX as int);
                lemma_blen_full(prev@, usize::MAX as int);
            }
            let cut: usize = if pos >= 2 && rope_char(&self.rope, pos - 2) == '\r' { 2 } else { 1 };
            rope_remove(&mut self.rope, pos - cut, pos);
            self.cursor.row = self.cursor.row - 1;
            self.cursor.col = prev_len;
        } else {
            let (k, _) = fit_exec(&line, self.cursor.col);
            proof {
                lemma_blen_step(line@, k - 1);
                assert(s.remove(pos - 1) == s.subrange(0, pos - 1) + s.subrange(pos as int, s.len() as int));
            }
            let w = char_len(line[k - 1]);
            rope_remove(&mut self.rope, pos - 1, pos);
            self.cursor.col = self.cursor.col - w;
        }
        self.dirty = true;
        self.clamp_cursor();
    }

    /// Moves the cursor one step, clamps it and scrolls the viewport to it;
    /// returns whether the top line changed.
    pub fn move_cursor(&mut self, dir: Direction) -> (r: bool)
        requires
            old(self).wf(),
        ensures
            final(self).wf(),
            final(self).rope == old(self).rope,
            ({
                let m = moved(old(self).text(), old(self).cursor, dir);
                &&& final(self).cursor.row == clamped_row(old(self).text(), m.row as int)
                &&& final(self).cursor.col == clamped_col(old(self).text(), m.row as int, m.col as int)
                &&& final(self).cursor.desired_col == m.desired_col
            }),
            final(self).cursor.selection == old(self).cursor.selection,
            final(self).viewport.top_line == scrolled_top(
                old(self).viewport,
                final(self).cursor.row as int,
                line_count(old(self).text()) as int,
            ),
            final(self).viewport.height == old(self).viewport.height,
            final(self).viewport.scroll_off == old(self).viewport.scroll_off,
            r == (final(self).viewport.top_line != old(self).viewport.top_line),
            final(self).path == old(self).path,
            final(self).dirty == old(self).dirty,
            final(self).save_deadline == old(self).save_deadline,
    {
        let prev_top = self.viewport.top_line;
        let line = self.line_chars(self.cursor.row);
        let (k, _) = fit_exec(&line, self.cursor.col);
        proof {
            lemma_fit(line@, self.cursor.col as int);
            assert(line@.take(0) == Seq::<char>::empty());
        }
        match dir {
            Direction::Up => {
                if self.cursor.row > 0 {
                    self.cursor.row = self.cursor.row - 1;
                    self.cursor.col = self.cursor.desired_col;
                }
            },
            Direction::Down => {
                let lc = self.line_count();
                if self.cursor.row < lc - 1 {
                    self.cursor.row = self.cursor.row + 1;
                    self.cursor.col = self.cursor.desired_col;
                }
            },
            Direction::Left => {
                if self.cursor.col > 0 && k > 0 {
                    proof {
                        lemma_blen_mono(line@, k - 1, k as int);
                    }
                    let (_, b) = fit_exec(&line, self.cursor.col - 1);
                    proof {
                        lemma_fit_prev(line@, self.cursor.col as int, k as int);
                    }
                    self.cursor.col = b;
                    self.cursor.desired_col = b;
                }
            },
            Direction::Right => {
                if k < line.len() {
                    let w = char_len(line[k]);
                    proof {
                        lemma_blen_step(line@, k as int);
                        lemma_blen_mono(line@, k + 1, line@.len() as int);
                    }
                    if self.cursor.col <= usize::MAX - w {
                        self.cursor.col = self.cursor.col + w;
                        self.cursor.desired_col = self.cursor.col;
                    }
                }
            },
            Direction::LineStart => {
                self.cursor.col = 0;
                self.cursor.desired_col = 0;
            },
            Direction::LineEnd => {
                let (m, full) = fit_exec(&line, usize::MAX);
                proof {
                    lemma_fit(line@, usize::MAX as int);
                    lemma_blen_full(line@, usize::MAX as int);
                    assert(line@.take(line@.len() as int) == line@);
                }
                if m == line.len() {
                    self.cursor.col = full;
                    self.cursor.desired_col = full;
                }
            },
        }
        self.clamp_cursor();
        self.scroll_to_cursor();
        self.viewport.top_line != prev_top
    }

    /// Scrolls so that the cursor row keeps `scroll_off` rows of margin
    /// above and below it; the top line is 0 when all lines fit.
    pub fn scroll_to_cursor(&mut self)
        ensures
            final(self).viewport.top_line == scrolled_top(
                old(self).viewport,
                old(self).cursor.row as int,
                line_count(old(self).text()) as int,
            ),
            final(self).viewport.height == old(self).viewport.height,
            final(self).viewport.scroll_off == old(self).viewport.scroll_off,
            final(self).rope == old(self).rope,
            final(self).cursor == old(self).cursor,
            final(self).path == old(self).path,
            final(self).dirty == old(self).dirty,
            final(self).save_deadline == old(self).save_deadline,
    {
        let off = self.viewport.scroll_off as u128;
        let h = self.viewport.height as u128;
        let row = self.cursor.row as u128;
        let lines = self.line_count();
        let mut top = self.viewport.top_line as u128;
        if row < top + off {
            top = if row >= off { row - off } else { 0 };
        }
        if lines as u128 <= h {
            top = 0;
        } else if row + off >= top + h {
            top = if row + off + 1 >= h { row + off + 1 - h } else { 0 };
            if top > row {
                top = row;
            }
        }
        self.viewport.top_line = top as usize;
    }
}

/// Fitting the whole line: the boundary found is the line's end whenever
/// its byte length is within `col`.
proof fn lemma_blen_full(line: Seq<char>, col: int)
    requires
        0 <= col,
    ensures
        blen(line) <= col ==> fit(line, col) == line.len() && blen(line.take(fit(line, col))) == blen(line),
        blen(line.take(fit(line, col))) <= blen(line),
{
    lemma_fit(line, col);
    assert(line.take(line.len() as int) == line);
    lemma_blen_mono(line, fit(line, col), line.len() as int);
    if blen(line) <= col && fit(line, col) < line.len() {
        lemma_blen_mono(line, fit(line, col) + 1, line.len() as int);
    }
}

/// One byte before boundary `k` falls back to boundary `k - 1`.
proof fn lemma_fit_prev(line: Seq<char>, col: int, k: int)
    requires
        0 < k <= line.len(),
        blen(line.take(k)) == col,
    ensures
        blen(line.take(fit(line, col - 1))) == blen(line.take(k - 1)),
{
    lemma_blen_step(line, k - 1);
    lemma_blen_mono(line, k - 1, k);
    lemma_fit(line, col - 1);
    let f = fit(line, col - 1);
    if f < k - 1 {
        lemma_blen_mono(line, f + 1, k - 1);
    } else if f > k - 1 {
        lemma_blen_mono(line, k, f);
    }
}

/// Cursor clamp: for every text and every row and column, the clamped
/// cursor lies on an existing line, within that line's byte length, on a
/// character boundary.
pub proof fn cursor_clamp(s: Seq<char>, row: int, col: int)
    requires
        0 <= row,
        0 <= col,
    ensures
        clamped_row(s, row) < line_count(s),
        clamped_col(s, row, col) <= blen(line_of(s, clamped_row(s, row))),
        on_boundary(line_of(s, clamped_row(s, row)), clamped_col(s, row, col)),
{
    let line = line_of(s, clamped_row(s, row));
    lemma_fit(line, col);
    lemma_blen_full(line, col);
}

/// Length of the line terminator that ends just before char index `i`:
/// two for a carriage return and line feed, else one.
pub open spec fn terminator_len(s: Seq<char>, i: int) -> int {
    if i >= 2 && s[i - 2] == '\r' {
        2
    } else {
        1
    }
}

/// Viewport margin: once scrolled to the cursor, a cursor row at least
/// `scroll_off` rows into a text longer than the window lies within
/// `[top + scroll_off, top + height - scroll_off)`, provided the window is
/// taller than both margins.
pub proof fn viewport_keeps_margin(v: Viewport, row: int, lines: int)
    requires
        v.height > 2 * v.scroll_off,
        lines > v.height,
        row >= v.scroll_off,
    ensures
        scrolled_top(v, row, lines) + v.scroll_off <= row < scrolled_top(v, row, lines) + v.height - v.scroll_off,
{
}

impl CursorState {
    pub open spec fn new_spec() -> CursorState {
        CursorState { row: 0, col: 0, desired_col: 0, selection: None }
    }
}

proof fn lemma_first_line(s: Seq<char>)
    ensures
        cursor_valid(s, CursorState::new_spec()),
{
    let line = line_of(s, 0);
    assert(line.take(0) == Seq::<char>::empty());
    assert(blen(line.take(0)) == 0);
}

} // verus!
