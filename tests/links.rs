use blackbox::links::{
    pick_lowered, collect_backlinks, line_links_to, lowered, parse_wikilink_target,
    resolve_wikilink_target, sanitize_link_name, wikilink_at, NoteLines, Resolution, VaultFile,
};

fn chars(s: &str) -> Vec<char> {
    s.chars().collect()
}

fn file(path: &str, name: &str, markdown: bool) -> VaultFile {
    VaultFile { path: path.to_string(), name: name.to_string(), markdown }
}

#[test]
fn link_keys_drop_alias_and_anchor() {
    assert_eq!(sanitize_link_name(&chars(" Note|alias ")), chars("Note"));
    assert_eq!(sanitize_link_name(&chars("Note#sec")), chars("Note"));
    assert_eq!(sanitize_link_name(&chars("|x")), chars(""));
}

#[test]
fn wikilink_targets() {
    assert_eq!(parse_wikilink_target(&chars("[[ Note | a ]]")), Some(chars("Note")));
    assert_eq!(parse_wikilink_target(&chars("[[|x]]")), None);
    assert_eq!(parse_wikilink_target(&chars("[x]")), None);
}

#[test]
fn line_links() {
    assert!(line_links_to(&chars("see [[note]] here"), &chars("Note")));
    assert!(line_links_to(&chars("[[a]] then [[Note#top]]"), &chars("note")));
    assert!(!line_links_to(&chars("[[Other]]"), &chars("Note")));
    assert!(!line_links_to(&chars("`plain` text"), &chars("Note")));
}

#[test]
fn link_under_cursor() {
    let line = chars("ab [[X|y]] cd");
    assert_eq!(wikilink_at(&line, 4), Some(chars("X")));
    assert_eq!(wikilink_at(&line, 9), Some(chars("X")));
    assert_eq!(wikilink_at(&line, 10), None);
    assert_eq!(wikilink_at(&line, 0), None);
}

#[test]
fn lowercase_is_unicode_aware() {
    assert_eq!(lowered(&chars("ÉTÉ.MD")), chars("été.md"));
}

#[test]
fn resolution_exact_then_case_insensitive_then_missing() {
    let files = vec![file("/v/a.txt", "note.txt", false), file("/v/sub/note.md", "note.md", true)];
    assert_eq!(resolve_wikilink_target(&chars("Note"), true, &files), Resolution::Exact);
    assert_eq!(resolve_wikilink_target(&chars("Note"), false, &files), Resolution::Listed(1));
    assert_eq!(resolve_wikilink_target(&chars("Other"), false, &files), Resolution::Missing);
    assert_eq!(resolve_wikilink_target(&chars(""), true, &files), Resolution::Empty);
    let accented = vec![file("/v/été.md", "été.md", true)];
    assert_eq!(resolve_wikilink_target(&chars("ÉTÉ"), false, &accented), Resolution::Listed(0));
}

fn note(path: &str, markdown: bool, lines: &[&str]) -> NoteLines {
    NoteLines { path: path.to_string(), markdown, lines: lines.iter().map(|l| l.to_string()).collect() }
}

#[test]
fn backlinks_point_at_the_linking_lines_in_order() {
    let notes = vec![
        note("/v/c.md", true, &["  [[B|alias]]  "]),
        note("/v/b.md", true, &["[[B]] self"]),
        note("/v/a.md", true, &["x [[b]] y", "nothing", "[[B#part]]"]),
        note("/v/d.txt", false, &["[[B]]"]),
    ];
    let found = collect_backlinks(&notes, &chars("/v/b.md"), &chars("B"));
    let got: Vec<(String, usize, String)> =
        found.iter().map(|e| (e.path.clone(), e.line, e.preview.clone())).collect();
    assert_eq!(
        got,
        vec![
            ("/v/a.md".to_string(), 1, "x [[b]] y".to_string()),
            ("/v/a.md".to_string(), 3, "[[B#part]]".to_string()),
            ("/v/c.md".to_string(), 1, "[[B|alias]]".to_string()),
        ]
    );
}

#[test]
fn backlink_paths_sort_by_component() {
    let notes = vec![note("/v/a-b.md", true, &["[[n]]"]), note("/v/a/x.md", true, &["[[n]]"])];
    let found = collect_backlinks(&notes, &chars("/v/n.md"), &chars("n"));
    let paths: Vec<String> = found.iter().map(|e| e.path.clone()).collect();
    assert_eq!(paths, vec!["/v/a/x.md".to_string(), "/v/a-b.md".to_string()]);
}

#[test]
fn picks_first_markdown_name_match() {
    let names = vec![chars("note.md"), chars("note.md"), chars("note.md")];
    assert_eq!(pick_lowered(&names, &vec![false, true, true], &chars("note.md")), Some(1));
    assert_eq!(pick_lowered(&names, &vec![false, false, false], &chars("note.md")), None);
    assert_eq!(pick_lowered(&names, &vec![true, true, true], &chars("other.md")), None);
}

#[test]
fn backlinks_match_non_ascii_case() {
    assert!(line_links_to(&chars("see [[ÜBER]]"), &chars("über")));
    let notes = vec![note("/v/a.md", true, &["[[ÜBER|x]]"])];
    let found = collect_backlinks(&notes, &chars("/v/über.md"), &chars("über"));
    assert_eq!(found.len(), 1);
    assert_eq!(found[0].line, 1);
}
