use blackbox::markdown::{
    base_markdown_style, next_markdown_token, parse_code_fence_language, render_inline_markdown, LineStyle,
    Span, TokenKind,
};

fn chars(s: &str) -> Vec<char> {
    s.chars().collect()
}

#[test]
fn inline_code_wins_over_wikilink_at_same_start() {
    let text = chars("`[[a]]`");
    let t = next_markdown_token(&text, 0).unwrap();
    assert_eq!(t.kind, TokenKind::InlineCode);
    assert_eq!((t.start, t.end), (0, 7));
}

#[test]
fn wikilink_wins_over_link_at_same_start() {
    let text = chars("[[a]](b)");
    let t = next_markdown_token(&text, 0).unwrap();
    assert_eq!(t.kind, TokenKind::WikiLink);
    assert_eq!((t.start, t.end), (0, 5));
}

#[test]
fn earliest_token_wins() {
    let text = chars("x *it* and `code`");
    let t = next_markdown_token(&text, 0).unwrap();
    assert_eq!(t.kind, TokenKind::Italic);
    assert_eq!((t.start, t.end), (2, 6));
    let t2 = next_markdown_token(&text, 6).unwrap();
    assert_eq!(t2.kind, TokenKind::InlineCode);
    assert_eq!((t2.start, t2.end), (11, 17));
    assert!(next_markdown_token(&text, 17).is_none());
}

#[test]
fn italic_needs_non_space_after_star() {
    assert!(next_markdown_token(&chars("a * b*"), 0).is_none());
    let t = next_markdown_token(&chars("[x](u)"), 0).unwrap();
    assert_eq!(t.kind, TokenKind::Link);
    assert_eq!(t.end, 6);
}

#[test]
fn spans_cover_the_line() {
    let spans = render_inline_markdown(&chars("a **b** c"));
    assert_eq!(
        spans,
        vec![
            Span { start: 0, end: 2, token: None },
            Span { start: 2, end: 7, token: Some(TokenKind::Bold) },
            Span { start: 7, end: 9, token: None },
        ]
    );
    assert_eq!(render_inline_markdown(&chars("")), vec![Span { start: 0, end: 0, token: None }]);
}

#[test]
fn style_ladder() {
    assert_eq!(base_markdown_style(&chars("# Title")), LineStyle::Heading1);
    assert_eq!(base_markdown_style(&chars("  ## Title")), LineStyle::Heading2);
    assert_eq!(base_markdown_style(&chars("### T")), LineStyle::Heading3);
    assert_eq!(base_markdown_style(&chars("#NoSpace")), LineStyle::Plain);
    assert_eq!(base_markdown_style(&chars("> quote")), LineStyle::Quote);
    assert_eq!(base_markdown_style(&chars("- item")), LineStyle::ListItem);
    assert_eq!(base_markdown_style(&chars("* item")), LineStyle::ListItem);
    assert_eq!(base_markdown_style(&chars("+ item")), LineStyle::ListItem);
    assert_eq!(base_markdown_style(&chars("")), LineStyle::Plain);
}

#[test]
fn fence_languages() {
    assert_eq!(parse_code_fence_language(&chars("```rust")), Some(chars("rust")));
    assert_eq!(parse_code_fence_language(&chars("   ```")), Some(chars("text")));
    assert_eq!(parse_code_fence_language(&chars("``````py ")), Some(chars("py")));
    assert_eq!(parse_code_fence_language(&chars("``x")), None);
    assert_eq!(parse_code_fence_language(&chars("text ```")), None);
}
