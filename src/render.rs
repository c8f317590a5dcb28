//! Rendering the visible window of a buffer into styled lines, with a cache
//! keyed by the window.

use vstd::prelude::*;
use crate::buffer::{Buffer, line_of, line_count};
use crate::markdown::{
    fence_language, inline_spans, line_style_of, parse_code_fence_language, base_markdown_style,
    render_inline_markdown, LineStyle, Span,
};

verus! {

/// What a rendered line is.
#[derive(Clone, Copy, Debug, PartialEq, Eq, Structural)]
pub enum LineKind {
    /// A code fence delimiter.
    Fence,
    /// A line inside a fenced code block; `lang` holds the block's language.
    Code,
    /// A markdown line with its style and inline spans.
    Markdown(LineStyle),
}

/// One styled line.
#[derive(Debug)]
pub struct RenderedLine {
    pub text: Vec<char>,
    pub kind: LineKind,
    /// The code block's language for a `Code` line, else empty.
    pub lang: Vec<char>,
    /// The inline spans of a `Markdown` line, else empty.
    pub spans: Vec<Span>,
}

impl View for RenderedLine {
    type V = (Seq<char>, LineKind, Seq<char>, Seq<Span>);

    open spec fn view(&self) -> (Seq<char>, LineKind, Seq<char>, Seq<Span>) {
        (self.text@, self.kind, self.lang@, self.spans@)
    }
}

/// The code-block state after a line: a fence opens a block with its
/// language, or closes the open one.
pub open spec fn fence_step(state: Option<Seq<char>>, line: Seq<char>) -> Option<Seq<char>> {
    match fence_language(line) {
        Some(lang) => if state is Some {
            None
        } else {
            Some(lang)
        },
        None => state,
    }
}

/// The code-block state before line `i`, from every line above it.
pub open spec fn block_state(s: Seq<char>, i: int) -> Option<Seq<char>>
    decreases i,
{
    if i <= 0 {
        None
    } else {
        fence_step(block_state(s, i - 1), line_of(s, i - 1))
    }
}

/// How a line renders in a given code-block state.
pub open spec fn render_view(line: Seq<char>, state: Option<Seq<char>>) -> (
    Seq<char>,
    LineKind,
    Seq<char>,
    Seq<Span>,
) {
    if fence_language(line) is Some {
        (line, LineKind::Fence, Seq::empty(), Seq::empty())
    } else if let Some(lang) = state {
        (line, LineKind::Code, lang, Seq::empty())
    } else {
        (line, LineKind::Markdown(line_style_of(line)), Seq::empty(), inline_spans(line))
    }
}

/// The rendering of lines `top..bottom` of text `s`.
pub open spec fn window_view(s: Seq<char>, top: int, bottom: int) -> Seq<
    (Seq<char>, LineKind, Seq<char>, Seq<Span>),
> {
    Seq::new((bottom - top) as nat, |j: int| render_view(line_of(s, top + j), block_state(s, top + j)))
}

/// The views of rendered lines.
pub open spec fn line_views(v: Seq<RenderedLine>) -> Seq<(Seq<char>, LineKind, Seq<char>, Seq<Span>)> {
    v.map_values(|l: RenderedLine| l@)
}

/// Renders one line in the current code-block state and advances the state.
pub fn render_markdown_line(text: Vec<char>, state: &mut Option<Vec<char>>) -> (r: RenderedLine)
    ensures
        r@ == render_view(text@, opt_view(*old(state))),
        opt_view(*final(state)) == fence_step(opt_view(*old(state)), text@),
{
    if let Some(lang) = parse_code_fence_language(&text) {
        if state.is_some() {
            *state = None;
        } else {
            *state = Some(lang);
        }
        return RenderedLine { text, kind: LineKind::Fence, lang: Vec::new(), spans: Vec::new() };
    }
    match state {
        Some(lang) => {
            let l = lang.clone();
            RenderedLine { text, kind: LineKind::Code, lang: l, spans: Vec::new() }
        },
        None => {
            let style = base_markdown_style(&text);
            let spans = render_inline_markdown(&text);
            RenderedLine { text, kind: LineKind::Markdown(style), lang: Vec::new(), spans }
        },
    }
}

/// The view of an optional character vector.
pub open spec fn opt_view(o: Option<Vec<char>>) -> Option<Seq<char>> {
    match o {
        Some(v) => Some(v@),
        None => None,
    }
}

/// The code-block state before line `line_index`, scanning from the first
/// line; an index past the last line gives the state after the last line.
pub fn code_block_lang_before_line(buf: &Buffer, line_index: usize) -> (r: Option<Vec<char>>)
    ensures
        opt_view(r) == block_state(
            buf.text(),
            if line_index <= line_count(buf.text()) { line_index as int } else { line_count(buf.text()) as int },
        ),
        line_index == 0 ==> r is None,
{
    let mut state: Option<Vec<char>> = None;
    let lc = buf.line_count();
    let end = if line_index <= lc { line_index } else { lc };
    let mut i: usize = 0;
    while i < end
        invariant
            i <= end <= line_count(buf.text()),
            end == (if line_index <= line_count(buf.text()) { line_index as int } else { line_count(buf.text()) as int }),
            opt_view(state) == block_state(buf.text(), i as int),
        decreases line_index - i,
    {
        let text = buf.line_chars(i);
        if let Some(lang) = parse_code_fence_language(&text) {
            if state.is_some() {
                state = None;
            } else {
                state = Some(lang);
            }
        }
        i = i + 1;
    }
    state
}

/// Memoized rendering of the visible window.
pub struct RenderCache {
    pub top: usize,
    pub bottom: usize,
    pub lines: Vec<RenderedLine>,
    /// Raised by any edit, scroll or mode change that affects the visible text.
    pub dirty: bool,
}

impl RenderCache {
    /// An empty cache that rebuilds on first use.
    pub fn new() -> (r: RenderCache)
        ensures
            r.dirty,
            r.lines@.len() == 0,
    {
        RenderCache { top: 0, bottom: 0, lines: Vec::new(), dirty: true }
    }

    /// Marks the cache stale.
    pub fn mark_dirty(&mut self)
        ensures
            final(self).dirty,
            final(self).top == old(self).top,
            final(self).bottom == old(self).bottom,
            final(self).lines@ == old(self).lines@,
    {
        self.dirty = true;
    }

    /// Renders the window of `height` rows starting at the buffer's top
    /// line. The cached lines are reused when the window is the cached one
    /// and the cache is clean (render cache coherence: two renders of one
    /// window with no edit or scroll between give the same lines); otherwise
    /// they are rebuilt from the current text, the code-block state being
    /// recomputed from the first line.
    pub fn render(&mut self, buf: &Buffer, height: usize)
        requires
            buf.viewport.top_line <= line_count(buf.text()),
        ensures
            !final(self).dirty,
            final(self).top == buf.viewport.top_line,
            final(self).bottom == window_bottom(buf, height),
            !old(self).dirty && old(self).top == final(self).top && old(self).bottom == final(self).bottom
                ==> final(self).lines@ == old(self).lines@,
            old(self).dirty || old(self).top != final(self).top || old(self).bottom != final(self).bottom
                ==> line_views(final(self).lines@) == window_view(buf.text(), final(self).top as int, final(self).bottom as int),
    {
        let top = buf.viewport.top_line;
        let lc = buf.line_count();
        let bottom = if height <= lc - top { top + height } else { lc };
        if !self.dirty && self.top == top && self.bottom == bottom {
            return;
        }
        let mut state = code_block_lang_before_line(buf, top);
        let mut lines: Vec<RenderedLine> = Vec::new();
        let mut i = top;
        let ghost s = buf.text();
        while i < bottom
            invariant
                s == buf.text(),
                top <= i <= bottom <= line_count(s),
                opt_view(state) == block_state(s, i as int),
                line_views(lines@) == window_view(s, top as int, i as int),
            decreases bottom - i,
        {
            let text = buf.line_chars(i);
            let ghost before = line_views(lines@);
            let line = render_markdown_line(text, &mut state);
            lines.push(line);
            assert(line_views(lines@) == before.push(line@));
            assert(window_view(s, top as int, i + 1) == window_view(s, top as int, i as int).push(
                render_view(line_of(s, i as int), block_state(s, i as int)),
            ));
            i = i + 1;
        }
        self.lines = lines;
        self.top = top;
        self.bottom = bottom;
        self.dirty = false;
    }
}

/// The last row (exclusive) of the window of `height` rows at the buffer's top line.
pub open spec fn window_bottom(buf: &Buffer, height: usize) -> usize {
    let top = buf.viewport.top_line as int;
    let lc = line_count(buf.text()) as int;
    if height <= lc - top {
        (top + height) as usize
    } else {
        lc as usize
    }
}

} // verus!
