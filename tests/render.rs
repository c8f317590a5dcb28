use blackbox::buffer::Buffer;
use blackbox::markdown::LineStyle;
use blackbox::render::{code_block_lang_before_line, LineKind, RenderCache};

fn chars(s: &str) -> Vec<char> {
    s.chars().collect()
}

#[test]
fn fences_switch_code_blocks() {
    let b = Buffer::from_file("/v/n.md".to_string(), "```rust\nlet x\n```\n# H");
    let mut cache = RenderCache::new();
    cache.render(&b, 10);
    assert!(!cache.dirty);
    assert_eq!((cache.top, cache.bottom), (0, 4));
    let kinds: Vec<LineKind> = cache.lines.iter().map(|l| l.kind).collect();
    assert_eq!(kinds, vec![LineKind::Fence, LineKind::Code, LineKind::Fence, LineKind::Markdown(LineStyle::Heading1)]);
    assert_eq!(cache.lines[1].lang, chars("rust"));
    assert_eq!(cache.lines[1].text, chars("let x"));
}

#[test]
fn block_state_is_rebuilt_from_the_top_after_a_jump() {
    let mut b = Buffer::from_file("/v/n.md".to_string(), "```py\na\nb\n```\nc");
    assert_eq!(code_block_lang_before_line(&b, 2), Some(chars("py")));
    assert_eq!(code_block_lang_before_line(&b, 4), None);
    assert_eq!(code_block_lang_before_line(&b, 0), None);
    assert_eq!(code_block_lang_before_line(&b, 99), None);
    let open = Buffer::from_file("/v/m.md".to_string(), "```rs\ncode");
    assert_eq!(code_block_lang_before_line(&open, 99), Some(chars("rs")));
    b.viewport.top_line = 2;
    let mut cache = RenderCache::new();
    cache.render(&b, 2);
    assert_eq!((cache.top, cache.bottom), (2, 4));
    assert_eq!(cache.lines[0].kind, LineKind::Code);
    assert_eq!(cache.lines[1].kind, LineKind::Fence);
}

#[test]
fn cache_reused_until_an_edit_marks_it_dirty() {
    let mut b = Buffer::from_file("/v/n.md".to_string(), "plain");
    let mut cache = RenderCache::new();
    cache.render(&b, 5);
    let first: Vec<Vec<char>> = cache.lines.iter().map(|l| l.text.clone()).collect();
    b.insert_char('#');
    b.insert_char(' ');
    cache.render(&b, 5);
    let second: Vec<Vec<char>> = cache.lines.iter().map(|l| l.text.clone()).collect();
    assert_eq!(first, second);
    cache.mark_dirty();
    cache.render(&b, 5);
    assert_eq!(cache.lines[0].text, chars("# plain"));
    assert_eq!(cache.lines[0].kind, LineKind::Markdown(LineStyle::Heading1));
}
