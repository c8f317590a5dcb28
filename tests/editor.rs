use blackbox::buffer::Buffer;
use blackbox::editor::{classify_command, Action, CommandKind, Editor, FinderMode, Key, KeyPress};
use blackbox::mode::Mode;
use blackbox::plugin::PluginAction;
use blackbox::links::VaultFile;

fn key(k: Key) -> KeyPress {
    KeyPress { key: k, ctrl: false, shift: false, alt: false }
}

fn ch(c: char) -> KeyPress {
    key(Key::Char(c))
}

fn ctrl(c: char) -> KeyPress {
    KeyPress { key: Key::Char(c), ctrl: true, shift: false, alt: false }
}

fn editor(text: &str) -> Editor {
    Editor::new(Buffer::from_file("/v/n.md".to_string(), text), "/v".to_string(), 500, 5, 50)
}

#[test]
fn typing_in_insert_mode_edits_and_schedules_a_save() {
    let mut e = editor("");
    e.handle_key(ch('i'), 0);
    assert_eq!(e.mode, Mode::Insert);
    e.handle_key(ch('h'), 10);
    e.handle_key(ch('i'), 20);
    assert_eq!(e.tabs.active.contents(), "hi");
    assert_eq!(e.tabs.active.save_deadline, Some(520));
    assert!(e.render_cache.dirty);
    e.handle_key(key(Key::Enter), 30);
    e.handle_key(key(Key::Backspace), 40);
    assert_eq!(e.tabs.active.contents(), "hi");
    e.handle_key(key(Key::Esc), 50);
    assert_eq!(e.mode, Mode::Normal);
    let writes = e.handle_tick(540);
    assert_eq!(writes.len(), 1);
    assert!(matches!(&writes[0], Action::Write(s) if s.text == "hi" && s.path == "/v/n.md"));
}

#[test]
fn quit_needs_confirmation_while_writes_are_pending() {
    let mut e = Editor::new(Buffer::from_file("/v/n.md".to_string(), ""), "/v".to_string(), 10_000, 5, 50);
    e.handle_key(ch('i'), 0);
    e.handle_key(ch('x'), 0);
    e.handle_key(key(Key::Esc), 0);
    let r = e.handle_key(ch('q'), 100);
    assert!(r.is_empty());
    assert!(e.quit_armed && !e.should_quit);
    assert_eq!(e.quit_until, Some(2100));
    e.handle_tick(2100);
    assert!(!e.quit_armed);
    e.handle_key(ch('q'), 3000);
    let r = e.handle_key(ch('q'), 3001);
    assert!(e.should_quit);
    assert!(matches!(r.last(), Some(Action::Quit)));
    assert!(matches!(&r[0], Action::Write(s) if s.text == "x"));
}

#[test]
fn quit_without_pending_writes_is_immediate() {
    let mut e = editor("");
    let r = e.handle_key(ch('q'), 0);
    assert!(e.should_quit);
    assert!(matches!(r.as_slice(), [Action::Quit]));
}

#[test]
fn other_keys_disarm_quit() {
    let mut e = editor("");
    e.handle_key(ch('i'), 0);
    e.handle_key(ch('x'), 0);
    e.handle_key(key(Key::Esc), 0);
    e.handle_key(ch('q'), 0);
    assert!(e.quit_armed);
    e.handle_key(ch('j'), 1);
    assert!(!e.quit_armed && e.quit_until.is_none());
}

#[test]
fn force_quit_saves_everything() {
    let mut e = editor("");
    e.handle_key(ch('i'), 0);
    e.handle_key(ch('z'), 0);
    e.handle_key(key(Key::Esc), 0);
    let r = e.handle_key(ch('Q'), 5);
    assert!(e.should_quit);
    assert_eq!(r.len(), 2);
}

#[test]
fn g_then_d_follows_the_link_under_the_cursor() {
    let mut e = editor("see [[Note|alias]]");
    e.tabs.active.cursor.col = 6;
    e.handle_key(ch('g'), 0);
    assert_eq!(e.pending_key, Some('g'));
    let r = e.handle_key(ch('d'), 0);
    assert!(e.pending_key.is_none());
    assert!(matches!(r.as_slice(), [Action::FollowLink(t)] if *t == vec!['N', 'o', 't', 'e']));
    e.tabs.active.cursor.col = 0;
    e.handle_key(ch('g'), 0);
    let r = e.handle_key(ch('d'), 0);
    assert!(r.is_empty());
    assert_eq!(e.notifications.last().map(|s| s.as_str()), Some("No WikiLink under cursor"));
    e.handle_key(ch('g'), 0);
    e.handle_key(ch('x'), 0);
    assert!(e.pending_key.is_none());
}

#[test]
fn command_mode_builds_and_runs_a_line() {
    let mut e = editor("");
    e.handle_key(ch(':'), 0);
    assert_eq!(e.mode, Mode::Command);
    for c in " help ".chars() {
        e.handle_key(ch(c), 0);
    }
    e.handle_key(key(Key::Backspace), 0);
    let r = e.handle_key(key(Key::Enter), 0);
    assert_eq!(e.mode, Mode::Normal);
    assert!(e.command_input.is_empty());
    assert!(matches!(r.as_slice(), [Action::RunCommand(c)] if c == "help"));
    e.handle_key(ch(':'), 0);
    e.handle_key(ch('x'), 0);
    e.handle_key(key(Key::Esc), 0);
    assert!(e.command_input.is_empty());
}

#[test]
fn finder_keys() {
    let mut e = editor("");
    let r = e.handle_key(ch('/'), 0);
    assert_eq!(e.mode, Mode::FinderOpen);
    assert_eq!(e.finder_mode, FinderMode::Files);
    assert!(matches!(r.last(), Some(Action::RefreshFinder)));
    e.handle_key(ch('a'), 0);
    assert_eq!(e.finder_query, vec!['a']);
    e.handle_key(key(Key::Esc), 0);
    assert_eq!(e.mode, Mode::Normal);
    assert!(e.finder_query.is_empty());
    e.handle_key(KeyPress { key: Key::Char('F'), ctrl: true, shift: true, alt: false }, 0);
    assert_eq!(e.finder_mode, FinderMode::Content);
}

#[test]
fn backlinks_panel_toggles() {
    let mut e = editor("");
    let r = e.handle_key(ctrl('b'), 0);
    assert_eq!(e.mode, Mode::Backlinks);
    assert!(matches!(r.last(), Some(Action::RefreshBacklinks)));
    e.handle_key(key(Key::Esc), 0);
    assert_eq!(e.mode, Mode::Normal);
    assert!(!e.backlinks_visible);
}

#[test]
fn goto_line_clamps() {
    let mut e = editor("a\nb\nc");
    e.goto_line(2);
    assert_eq!(e.tabs.active.cursor.row, 1);
    e.goto_line(99);
    assert_eq!(e.tabs.active.cursor.row, 2);
    e.goto_line(0);
    assert_eq!(e.tabs.active.cursor.row, 0);
}

#[test]
fn command_lines_are_classified() {
    let c = |s: &str| classify_command(&s.chars().collect());
    assert_eq!(c("  "), CommandKind::Blank);
    assert_eq!(c("help"), CommandKind::Help);
    assert_eq!(c("pl"), CommandKind::Summary);
    assert_eq!(c("plugins.list"), CommandKind::List);
    assert_eq!(c("pl.errors"), CommandKind::Errors);
    assert_eq!(c("plugins.reload"), CommandKind::Reload);
    assert_eq!(c("p \"word count\""), CommandKind::Plugin("word count".chars().collect()));
    assert_eq!(c("wc"), CommandKind::Other(vec!['w', 'c']));
}

#[test]
fn help_lists_builtins() {
    let mut e = editor("");
    let reload = e.handle_plugin_command(&"help".chars().collect());
    assert!(!reload);
    assert!(e.notifications.iter().any(|n| n == "  help"));
    assert!(e.handle_plugin_command(&"pl.reload".chars().collect()));
    e.handle_plugin_command(&"plugin".chars().collect());
    assert_eq!(e.notifications.last().map(|s| s.as_str()), Some("plugin command not found: plugin"));
    e.handle_plugin_command(&"p  ".chars().collect());
    assert_eq!(e.notifications.last().map(|s| s.as_str()), Some("plugin command not found: p"));
    assert!(e.notifications.len() <= 8);
}

#[test]
fn status_suffix_follows_the_mode() {
    let mut e = editor("");
    let s = |e: &Editor| e.status_suffix(&"n.md".chars().collect()).into_iter().collect::<String>();
    assert_eq!(s(&e), "");
    e.handle_key(ch(':'), 0);
    e.handle_key(ch('w'), 0);
    assert_eq!(s(&e), " | :w");
    e.handle_key(key(Key::Esc), 0);
    e.handle_key(ch('/'), 0);
    e.handle_key(ch('x'), 0);
    assert_eq!(s(&e), " | find: x");
    e.handle_key(key(Key::Esc), 0);
    e.handle_key(ch('i'), 0);
    e.handle_key(ch('y'), 0);
    e.handle_key(key(Key::Esc), 0);
    e.handle_key(ch('q'), 0);
    assert_eq!(s(&e), " | 1 pending, press q again to save+quit");
    e.mode = Mode::ConfirmCreate;
    e.quit_armed = false;
    e.pending_create_path = Some("/v/n.md".to_string());
    assert_eq!(s(&e), " | create n.md? (y/n)");
}

#[test]
fn plugin_events_notify_or_redraw() {
    let mut e = editor("");
    let mut cache_was_dirty = e.render_cache.dirty;
    e.render_cache.render(&e.tabs.active, 5);
    assert!(!e.render_cache.dirty);
    e.handle_plugin_event(PluginAction::RequestRedraw);
    assert!(e.render_cache.dirty);
    cache_was_dirty &= e.render_cache.dirty;
    assert!(cache_was_dirty);
    e.handle_plugin_event(PluginAction::Notify("hello".to_string()));
    assert_eq!(e.notifications.last().map(|s| s.as_str()), Some("hello"));
}

#[test]
fn following_a_missing_link_asks_to_create_it() {
    let mut e = editor("");
    let files = vec![VaultFile { path: "/v/sub/note.md".to_string(), name: "note.md".to_string(), markdown: true }];
    let key: Vec<char> = "Note".chars().collect();
    assert_eq!(e.follow_link(&key, true, &files), Some("/v/Note.md".to_string()));
    assert_eq!(e.follow_link(&key, false, &files), Some("/v/sub/note.md".to_string()));
    assert_eq!(e.mode, Mode::Normal);
    let missing: Vec<char> = "Other".chars().collect();
    assert_eq!(e.follow_link(&missing, false, &files), None);
    assert_eq!(e.mode, Mode::ConfirmCreate);
    assert_eq!(e.pending_create_path, Some("/v/Other.md".to_string()));
    let r = e.handle_key(ch('y'), 0);
    assert!(matches!(r.as_slice(), [Action::CreateNote(p)] if p == "/v/Other.md"));
}

#[test]
fn opening_a_file_marks_the_render_cache_stale() {
    let mut e = editor("x");
    e.render_cache.render(&e.tabs.active, 5);
    let (snap, res) = e.open_file("/v/b.md".to_string(), Some(Buffer::from_file("/v/b.md".to_string(), "B")), 0);
    assert!(snap.is_none());
    assert!(res.is_ok());
    assert!(e.render_cache.dirty);
    let (_, res) = e.open_file("/v/gone.md".to_string(), None, 0);
    assert!(res.is_err());
    assert_eq!(e.tabs.active.contents(), "B");
}

#[test]
fn quit_writes_every_pending_buffer_in_order() {
    let mut e = editor("");
    e.handle_key(ch('i'), 0);
    e.handle_key(ch('a'), 0);
    e.handle_key(key(Key::Esc), 0);
    let r = e.handle_key(ch('Q'), 0);
    assert_eq!(r.len(), 2);
    assert!(matches!(&r[0], Action::Write(s) if s.text == "a"));
    assert!(matches!(r[1], Action::Quit));
}

#[test]
fn finder_enter_opens_the_selected_hit() {
    use_finder_results(&mut editor(""));
}

fn use_finder_results(e: &mut Editor) {
    e.handle_key(ch('/'), 0);
    let r = e.handle_key(ch('x'), 0);
    assert!(matches!(r.last(), Some(Action::RefreshFinder)));
    e.set_finder_results(vec![blackbox::finder::FinderResult { path: "/v/a.md".to_string(), line: Some(3), preview: "p".to_string() }]);
    let r = e.handle_key(key(Key::Enter), 0);
    assert!(matches!(r.as_slice(), [Action::Open(p, Some(3))] if p == "/v/a.md"));
}
