//! Markdown line rendering: fenced-code tracking, the line style ladder and
//! the inline tokenizer.

use vstd::prelude::*;
use crate::text::{is_space, space, trim, lead_spaces, lemma_lead_spaces, lemma_lead_from, trimmed, slice_of};

verus! {

/// The inline token kinds, listed from highest to lowest priority.
#[derive(Clone, Copy, Debug, PartialEq, Eq, Structural)]
pub enum TokenKind {
    InlineCode,
    WikiLink,
    Link,
    Bold,
    Italic,
}

/// One inline token: characters `start..end` of a line.
#[derive(Clone, Copy, Debug, PartialEq, Eq, Structural)]
pub struct Token {
    pub start: usize,
    pub end: usize,
    pub kind: TokenKind,
}

/// Style of a whole markdown line, from its leading characters.
#[derive(Clone, Copy, Debug, PartialEq, Eq, Structural)]
pub enum LineStyle {
    Heading1,
    Heading2,
    Heading3,
    Quote,
    ListItem,
    Plain,
}

/// A styled piece of a line: characters `start..end`, plain or one token kind.
#[derive(Clone, Copy, Debug, PartialEq, Eq, Structural)]
pub struct Span {
    pub start: usize,
    pub end: usize,
    pub token: Option<TokenKind>,
}

/// First index at or after `i` that holds `stop`, or the length of `s`.
pub open spec fn run_end(s: Seq<char>, i: int, stop: char) -> int
    decreases s.len() - i,
{
    if i >= s.len() || i < 0 {
        if i < 0 { 0 } else { i }
    } else if s[i] == stop {
        i
    } else {
        run_end(s, i + 1, stop)
    }
}

pub proof fn lemma_run_end(s: Seq<char>, i: int, stop: char)
    requires
        0 <= i,
    ensures
        i <= run_end(s, i, stop),
        i <= s.len() ==> run_end(s, i, stop) <= s.len(),
        run_end(s, i, stop) < s.len() ==> s[run_end(s, i, stop)] == stop,
        forall|j: int| i <= j < run_end(s, i, stop) ==> s[j] != stop,
    decreases s.len() - i,
{
    if i < s.len() && s[i] != stop {
        lemma_run_end(s, i + 1, stop);
    }
}

/// End of an inline code span `` `x` `` starting at `p`.
pub open spec fn code_at(s: Seq<char>, p: int) -> Option<int> {
    let q = run_end(s, p + 1, '`');
    if 0 <= p && p + 1 < s.len() && s[p] == '`' && q > p + 1 && q < s.len() {
        Some(q + 1)
    } else {
        None
    }
}

/// End of a wikilink `[[x]]` starting at `p`.
pub open spec fn wiki_at(s: Seq<char>, p: int) -> Option<int> {
    let q = run_end(s, p + 2, ']');
    if 0 <= p && p + 2 < s.len() && s[p] == '[' && s[p + 1] == '[' && q > p + 2 && q + 1 < s.len()
        && s[q + 1] == ']' {
        Some(q + 2)
    } else {
        None
    }
}

/// End of a markdown link `[x](y)` starting at `p`.
pub open spec fn link_at(s: Seq<char>, p: int) -> Option<int> {
    let q = run_end(s, p + 1, ']');
    let r = run_end(s, q + 2, ')');
    if 0 <= p && p + 1 < s.len() && s[p] == '[' && q > p + 1 && q + 1 < s.len() && s[q + 1]
        == '(' && r > q + 2 && r < s.len() {
        Some(r + 1)
    } else {
        None
    }
}

/// End of bold text `**x**` starting at `p`.
pub open spec fn bold_at(s: Seq<char>, p: int) -> Option<int> {
    let q = run_end(s, p + 2, '*');
    if 0 <= p && p + 2 < s.len() && s[p] == '*' && s[p + 1] == '*' && q > p + 2 && q + 1 < s.len()
        && s[q + 1] == '*' {
        Some(q + 2)
    } else {
        None
    }
}

/// End of italic text `*x*` starting at `p`; the first inner character is
/// neither `*` nor whitespace.
pub open spec fn italic_at(s: Seq<char>, p: int) -> Option<int> {
    let q = run_end(s, p + 2, '*');
    if 0 <= p && p + 2 < s.len() && s[p] == '*' && s[p + 1] != '*' && !is_space(s[p + 1]) && q
        < s.len() {
        Some(q + 1)
    } else {
        None
    }
}

/// The token that starts at `p`, taking the highest-priority kind that fits.
pub open spec fn token_at(s: Seq<char>, p: int) -> Option<(int, TokenKind)> {
    if code_at(s, p) is Some {
        Some((code_at(s, p)->0, TokenKind::InlineCode))
    } else if wiki_at(s, p) is Some {
        Some((wiki_at(s, p)->0, TokenKind::WikiLink))
    } else if link_at(s, p) is Some {
        Some((link_at(s, p)->0, TokenKind::Link))
    } else if bold_at(s, p) is Some {
        Some((bold_at(s, p)->0, TokenKind::Bold))
    } else if italic_at(s, p) is Some {
        Some((italic_at(s, p)->0, TokenKind::Italic))
    } else {
        None
    }
}

/// The earliest-starting token at or after `p`.
pub open spec fn first_token(s: Seq<char>, p: int) -> Option<Token>
    decreases s.len() - p,
{
    if p < 0 || p >= s.len() {
        None
    } else if let Some(hit) = token_at(s, p) {
        Some(Token { start: p as usize, end: hit.0 as usize, kind: hit.1 })
    } else {
        first_token(s, p + 1)
    }
}

proof fn lemma_token_at(s: Seq<char>, p: int)
    requires
        0 <= p < s.len(),
        token_at(s, p) is Some,
    ensures
        token_at(s, p) matches Some(hit) ==> p < hit.0 <= s.len(),
{
    lemma_run_end(s, p + 1, '`');
    lemma_run_end(s, p + 2, ']');
    lemma_run_end(s, p + 1, ']');
    lemma_run_end(s, run_end(s, p + 1, ']') + 2, ')');
    lemma_run_end(s, p + 2, '*');
}

pub proof fn lemma_first_token(s: Seq<char>, p: int)
    requires
        0 <= p,
        s.len() <= usize::MAX,
    ensures
        first_token(s, p) matches Some(t) ==> p <= t.start < t.end <= s.len() && token_at(
            s,
            t.start as int,
        ) == Some((t.end as int, t.kind)),
    decreases s.len() - p,
{
    if p < s.len() {
        if token_at(s, p) is Some {
            lemma_token_at(s, p);
        } else {
            lemma_first_token(s, p + 1);
        }
    }
}

fn scan_run(s: &Vec<char>, i: usize, stop: char) -> (r: usize)
    requires
        i <= s.len(),
    ensures
        r == run_end(s@, i as int, stop),
{
    proof {
        lemma_run_end(s@, i as int, stop);
    }
    let mut j = i;
    while j < s.len() && s[j] != stop
        invariant
            i <= j <= s.len(),
            run_end(s@, i as int, stop) == run_end(s@, j as int, stop),
        decreases s.len() - j,
    {
        j = j + 1;
    }
    j
}

fn match_at(s: &Vec<char>, p: usize) -> (r: Option<(usize, TokenKind)>)
    requires
        p < s.len(),
    ensures
        r matches Some(x) ==> token_at(s@, p as int) == Some((x.0 as int, x.1)),
        r is None ==> token_at(s@, p as int) is None,
{
    let n = s.len();
    if n - p > 1 && s[p] == '`' {
        let q = scan_run(s, p + 1, '`');
        if q > p + 1 && q < n {
            return Some((q + 1, TokenKind::InlineCode));
        }
    }
    if n - p > 2 && s[p] == '[' && s[p + 1] == '[' {
        let q = scan_run(s, p + 2, ']');
        if q > p + 2 && q < n - 1 && s[q + 1] == ']' {
            return Some((q + 2, TokenKind::WikiLink));
        }
    }
    if n - p > 1 && s[p] == '[' {
        let q = scan_run(s, p + 1, ']');
        if q > p + 1 && q < n - 1 && s[q + 1] == '(' {
            let r = scan_run(s, q + 2, ')');
            if r > q + 2 && r < n {
                return Some((r + 1, TokenKind::Link));
            }
        }
    }
    if n - p > 2 && s[p] == '*' && s[p + 1] == '*' {
        let q = scan_run(s, p + 2, '*');
        if q > p + 2 && q < n - 1 && s[q + 1] == '*' {
            return Some((q + 2, TokenKind::Bold));
        }
    }
    if n - p > 2 && s[p] == '*' && s[p + 1] != '*' && !space(s[p + 1]) {
        let q = scan_run(s, p + 2, '*');
        if q < n {
            return Some((q + 1, TokenKind::Italic));
        }
    }
    None
}

/// Finds the earliest token that starts at or after `start_at`; among tokens
/// that start at the same place, inline code beats wikilink, link, bold and
/// italic, in that order.
pub fn next_markdown_token(text: &Vec<char>, start_at: usize) -> (r: Option<Token>)
    ensures
        r == first_token(text@, start_at as int),
{
    let mut p = start_at;
    while p < text.len()
        invariant
            start_at <= p,
            first_token(text@, start_at as int) == first_token(text@, p as int),
        decreases text.len() - p,
    {
        if let Some((end, kind)) = match_at(text, p) {
            return Some(Token { start: p, end, kind });
        }
        p = p + 1;
    }
    None
}

/// The spans of `s` from position `cur` on: plain text between tokens, and
/// each token in turn.
pub open spec fn spans_from(s: Seq<char>, cur: int) -> Seq<Span>
    decreases s.len() - cur,
{
    if cur < 0 || cur >= s.len() {
        Seq::empty()
    } else {
        match first_token(s, cur) {
            None => seq![Span { start: cur as usize, end: s.len() as usize, token: None }],
            Some(t) => {
                let gap = if t.start > cur {
                    seq![Span { start: cur as usize, end: t.start, token: None }]
                } else {
                    Seq::empty()
                };
                let tok = Span { start: t.start, end: t.end, token: Some(t.kind) };
                if cur < t.end <= s.len() {
                    gap.push(tok) + spans_from(s, t.end as int)
                } else {
                    gap.push(tok)
                }
            },
        }
    }
}

/// The spans of a markdown line outside code blocks: a single plain span for
/// an empty line, else `spans_from` the start.
pub open spec fn inline_spans(s: Seq<char>) -> Seq<Span> {
    if s.len() == 0 {
        seq![Span { start: 0, end: 0, token: None }]
    } else {
        spans_from(s, 0)
    }
}

/// Splits a line into plain and token spans, left to right.
pub fn render_inline_markdown(text: &Vec<char>) -> (r: Vec<Span>)
    ensures
        r@ == inline_spans(text@),
{
    let mut spans: Vec<Span> = Vec::new();
    let mut cursor: usize = 0;
    while cursor < text.len()
        invariant
            cursor <= text.len(),
            spans@ + spans_from(text@, cursor as int) == spans_from(text@, 0),
        decreases text.len() - cursor,
    {
        proof {
            lemma_first_token(text@, cursor as int);
        }
        match next_markdown_token(text, cursor) {
            None => {
                spans.push(Span { start: cursor, end: text.len(), token: None });
                proof {
                    assert(spans_from(text@, text.len() as int) == Seq::<Span>::empty());
                }
                cursor = text.len();
            },
            Some(t) => {
                let ghost before = spans@;
                if t.start > cursor {
                    spans.push(Span { start: cursor, end: t.start, token: None });
                }
                spans.push(Span { start: t.start, end: t.end, token: Some(t.kind) });
                proof {
                    let gap = if t.start > cursor {
                        seq![Span { start: cursor, end: t.start, token: None }]
                    } else {
                        Seq::<Span>::empty()
                    };
                    let tok = Span { start: t.start, end: t.end, token: Some(t.kind) };
                    assert(spans@ == before + gap.push(tok));
                    assert(spans_from(text@, cursor as int) == gap.push(tok) + spans_from(
                        text@,
                        t.end as int,
                    ));
                    assert(before + (gap.push(tok) + spans_from(text@, t.end as int)) == spans@
                        + spans_from(text@, t.end as int));
                }
                cursor = t.end;
            },
        }
    }
    assert(spans_from(text@, cursor as int) == Seq::<Span>::empty());
    assert(spans@ == spans@ + Seq::<Span>::empty());
    if spans.len() == 0 {
        spans.push(Span { start: 0, end: text.len(), token: None });
    }
    spans
}

/// Whether position `i` of `s` holds `c`.
pub open spec fn char_at(s: Seq<char>, i: int, c: char) -> bool {
    0 <= i < s.len() && s[i] == c
}

fn char_is(s: &Vec<char>, i: usize, c: char) -> (r: bool)
    ensures
        r == char_at(s@, i as int, c),
{
    i < s.len() && s[i] == c
}

/// Whether three backticks start at position `i` of `s`.
pub open spec fn ticks_at(s: Seq<char>, i: int) -> bool {
    char_at(s, i, '`') && char_at(s, i + 1, '`') && char_at(s, i + 2, '`')
}

/// The style ladder on the text after leading whitespace: `# `, `## `,
/// `### `, `>`, a bullet `- `/`* `/`+ `, else plain; the first that fits wins.
pub open spec fn line_style_of(s: Seq<char>) -> LineStyle {
    let a = lead_spaces(s) as int;
    if char_at(s, a, '#') && char_at(s, a + 1, ' ') {
        LineStyle::Heading1
    } else if char_at(s, a, '#') && char_at(s, a + 1, '#') && char_at(s, a + 2, ' ') {
        LineStyle::Heading2
    } else if char_at(s, a, '#') && char_at(s, a + 1, '#') && char_at(s, a + 2, '#') && char_at(
        s,
        a + 3,
        ' ',
    ) {
        LineStyle::Heading3
    } else if char_at(s, a, '>') {
        LineStyle::Quote
    } else if (char_at(s, a, '-') || char_at(s, a, '*') || char_at(s, a, '+')) && char_at(
        s,
        a + 1,
        ' ',
    ) {
        LineStyle::ListItem
    } else {
        LineStyle::Plain
    }
}

fn lead_count(s: &Vec<char>) -> (r: usize)
    ensures
        r == lead_spaces(s@),
        r <= s.len(),
{
    proof {
        lemma_lead_spaces(s@);
    }
    let mut a: usize = 0;
    while a < s.len() && space(s[a])
        invariant
            a <= s.len(),
            forall|i: int| 0 <= i < a ==> is_space(#[trigger] s@[i]),
        decreases s.len() - a,
    {
        a = a + 1;
    }
    proof {
        lemma_lead_from(s@, a as int);
    }
    a
}

/// Picks the style of a markdown line outside code blocks.
pub fn base_markdown_style(text: &Vec<char>) -> (r: LineStyle)
    ensures
        r == line_style_of(text@),
{
    let a = lead_count(text);
    if char_is(text, a, '#') && a < text.len() && char_is(text, a + 1, ' ') {
        LineStyle::Heading1
    } else if char_is(text, a, '#') && a < text.len() && char_is(text, a + 1, '#') && a + 1
        < text.len() && char_is(text, a + 2, ' ') {
        LineStyle::Heading2
    } else if char_is(text, a, '#') && a < text.len() && char_is(text, a + 1, '#') && a + 1
        < text.len() && char_is(text, a + 2, '#') && a + 2 < text.len() && char_is(
        text,
        a + 3,
        ' ',
    ) {
        LineStyle::Heading3
    } else if char_is(text, a, '>') {
        LineStyle::Quote
    } else if (char_is(text, a, '-') || char_is(text, a, '*') || char_is(text, a, '+')) && a
        < text.len() && char_is(text, a + 1, ' ') {
        LineStyle::ListItem
    } else {
        LineStyle::Plain
    }
}

/// `s` from position `i` on, with every leading backtick triple removed
/// (`trim_start_matches("```")`).
pub open spec fn strip_fences(s: Seq<char>, i: int) -> Seq<char>
    decreases s.len() - i,
{
    if 0 <= i && ticks_at(s, i) {
        strip_fences(s, i + 3)
    } else if 0 <= i <= s.len() {
        s.subrange(i, s.len() as int)
    } else {
        Seq::empty()
    }
}

/// The language tag of a code fence line: the line, after leading
/// whitespace, starts with three backticks; the tag is the rest without
/// further backtick triples and trimmed, or `text` where that is empty.
pub open spec fn fence_language(s: Seq<char>) -> Option<Seq<char>> {
    let a = lead_spaces(s) as int;
    if !ticks_at(s, a) {
        None
    } else if trim(strip_fences(s, a)).len() == 0 {
        Some(seq!['t', 'e', 'x', 't'])
    } else {
        Some(trim(strip_fences(s, a)))
    }
}

/// Parses a code fence delimiter line into its language tag.
pub fn parse_code_fence_language(line: &Vec<char>) -> (r: Option<Vec<char>>)
    ensures
        r is Some <==> fence_language(line@) is Some,
        r matches Some(v) ==> fence_language(line@) == Some(v@),
{
    let a = lead_count(line);
    if !(char_is(line, a, '`') && a < line.len() && char_is(line, a + 1, '`') && a + 1 < line.len()
        && char_is(line, a + 2, '`')) {
        return None;
    }
    let mut b = a;
    while line.len() - b >= 3 && line[b] == '`' && line[b + 1] == '`' && line[b + 2] == '`'
        invariant
            a <= b <= line.len(),
            strip_fences(line@, a as int) == strip_fences(line@, b as int),
        decreases line.len() - b,
    {
        b = b + 3;
    }
    let rest = slice_of(line, b, line.len());
    let lang = trimmed(&rest);
    if lang.len() == 0 {
        Some(vec!['t', 'e', 'x', 't'])
    } else {
        Some(lang)
    }
}

} // verus!
