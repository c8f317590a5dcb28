use blackbox::finder::{contains_seq, find_files, rank_files, search_contents};
use blackbox::links::NoteLines;

fn chars(s: &str) -> Vec<char> {
    s.chars().collect()
}

#[test]
fn ranking_orders_by_score_then_listing() {
    let scores = vec![Some(5), None, Some(9), Some(5)];
    assert_eq!(rank_files(&scores, 10), vec![(9, 2), (5, 0), (5, 3)]);
    assert_eq!(rank_files(&scores, 2), vec![(9, 2), (5, 0)]);
    assert_eq!(rank_files(&scores, 0), vec![]);
}

#[test]
fn empty_query_lists_first_paths() {
    let paths = vec!["/v/a.md".to_string(), "/v/b.md".to_string(), "/v/c.md".to_string()];
    let r = find_files(&paths, "", 2);
    let got: Vec<&str> = r.iter().map(|x| x.path.as_str()).collect();
    assert_eq!(got, vec!["/v/a.md", "/v/b.md"]);
    assert!(r.iter().all(|x| x.line.is_none() && x.preview == x.path));
}

#[test]
fn fuzzy_query_drops_non_matches_and_caps() {
    let paths = vec!["/v/xyz.md".to_string(), "/v/alpha.md".to_string(), "/v/alps.md".to_string()];
    let r = find_files(&paths, "alp", 10);
    let got: Vec<&str> = r.iter().map(|x| x.path.as_str()).collect();
    assert_eq!(got.len(), 2);
    assert!(!got.contains(&"/v/xyz.md"));
    assert_eq!(find_files(&paths, "alp", 1).len(), 1);
}

fn note(path: &str, lines: &[&str]) -> NoteLines {
    NoteLines { path: path.to_string(), markdown: true, lines: lines.iter().map(|l| l.to_string()).collect() }
}

#[test]
fn content_search_is_case_insensitive_first_n() {
    let notes = vec![note("/v/a.md", &["Hello there", "no", "say HELLO"]), note("/v/b.md", &["hello again"])];
    let r = search_contents(&notes, &chars("hello"), 10);
    let got: Vec<(String, Option<usize>, String)> =
        r.iter().map(|x| (x.path.clone(), x.line, x.preview.clone())).collect();
    assert_eq!(
        got,
        vec![
            ("/v/a.md".to_string(), Some(1), "Hello there".to_string()),
            ("/v/a.md".to_string(), Some(3), "say HELLO".to_string()),
            ("/v/b.md".to_string(), Some(1), "hello again".to_string()),
        ]
    );
    let capped = search_contents(&notes, &chars("HELLO"), 2);
    assert_eq!(capped.len(), 2);
    assert_eq!(capped[1].line, Some(3));
}

#[test]
fn finder_cap_holds_for_longer_queries() {
    let notes = vec![note("/v/a.md", &["ab", "abc", "abcd", "abcde"])];
    for q in ["a", "ab", "abc", "abcd"] {
        assert!(search_contents(&notes, &chars(q), 2).len() <= 2);
    }
    assert_eq!(search_contents(&notes, &chars("a"), 0).len(), 0);
    assert_eq!(search_contents(&notes, &chars(""), 5).len(), 0);
}

#[test]
fn substring_search() {
    assert!(contains_seq(&chars("hello"), &chars("ll")));
    assert!(contains_seq(&chars("hello"), &chars("")));
    assert!(!contains_seq(&chars("hello"), &chars("lo!")));
}
