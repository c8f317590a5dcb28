use blackbox::buffer::Buffer;
use blackbox::tabs::{OpenError, TabRegistry};

fn buf(path: &str, text: &str) -> Buffer {
    Buffer::from_file(path.to_string(), text)
}

#[test]
fn opening_swaps_buffers_and_adds_tabs() {
    let mut t = TabRegistry::new(buf("/v/a.md", "A"));
    assert_eq!(t.open_tabs, vec!["/v/a.md".to_string()]);
    let (snap, res) = t.open_file("/v/b.md".to_string(), Some(buf("/v/b.md", "B")), 3, 0);
    assert!(snap.is_none());
    assert_eq!(res, Ok(()));
    assert_eq!(t.active.contents(), "B");
    assert_eq!(t.active.viewport.scroll_off, 3);
    assert_eq!(t.inactive.len(), 1);
    assert_eq!(t.open_tabs, vec!["/v/a.md".to_string(), "/v/b.md".to_string()]);
    let (_, res) = t.open_file("/v/a.md".to_string(), None, 3, 0);
    assert_eq!(res, Ok(()));
    assert_eq!(t.active.contents(), "A");
    assert_eq!(t.inactive[0].path, Some("/v/b.md".to_string()));
}

#[test]
fn load_failure_leaves_active_buffer() {
    let mut t = TabRegistry::new(buf("/v/a.md", "A"));
    let res = t.activate("/v/missing.md".to_string(), None, 5);
    assert_eq!(res, Err(OpenError::LoadFailed));
    assert_eq!(t.active.contents(), "A");
    assert_eq!(t.inactive.len(), 0);
}

#[test]
fn opening_saves_a_dirty_buffer_first() {
    let mut t = TabRegistry::new(buf("/v/a.md", "A"));
    t.active.insert_char('x');
    let (snap, _) = t.open_file("/v/b.md".to_string(), Some(buf("/v/b.md", "B")), 5, 10);
    let snap = snap.unwrap();
    assert_eq!((snap.path.as_str(), snap.text.as_str()), ("/v/a.md", "xA"));
    assert!(!t.inactive[0].dirty);
}

#[test]
fn tab_switching_cycles() {
    let mut t = TabRegistry::new(buf("/v/a.md", "A"));
    assert_eq!(t.switch_relative(1), None);
    t.open_file("/v/b.md".to_string(), Some(buf("/v/b.md", "B")), 5, 0);
    t.open_file("/v/c.md".to_string(), Some(buf("/v/c.md", "C")), 5, 0);
    assert_eq!(t.switch_relative(1), Some("/v/a.md".to_string()));
    assert_eq!(t.switch_relative(-1), Some("/v/b.md".to_string()));
    assert_eq!(t.switch_relative(-4), Some("/v/b.md".to_string()));
    assert_eq!(t.active_tab_index(), Some(2));
}

#[test]
fn rapid_edits_coalesce_into_one_write() {
    let mut t = TabRegistry::new(buf("/v/a.md", ""));
    for (i, now) in [0u64, 100, 200].iter().enumerate() {
        t.active.insert_char('x');
        t.schedule_auto_save(*now, 500);
        assert_eq!(t.active.save_deadline, Some(now + 500));
        if i < 2 {
            assert!(t.tick_saves(now + 50).is_empty());
        }
    }
    assert!(t.tick_saves(600).is_empty());
    let writes = t.tick_saves(700);
    assert_eq!(writes.len(), 1);
    assert_eq!(writes[0].text, "xxx");
    assert!(t.tick_saves(800).is_empty());
    assert_eq!(t.pending_write_count(), 0);
}

#[test]
fn inactive_buffers_save_on_their_deadline() {
    let mut t = TabRegistry::new(buf("/v/a.md", "A"));
    t.active.insert_char('1');
    t.schedule_auto_save(0, 100);
    let (snap, _) = t.open_file("/v/b.md".to_string(), Some(buf("/v/b.md", "B")), 5, 0);
    assert!(snap.is_some());
    t.inactive[0].save_deadline = Some(50);
    t.inactive[0].dirty = true;
    assert_eq!(t.pending_write_count(), 1);
    let w = t.tick_saves(50);
    assert_eq!(w.len(), 1);
    assert_eq!(w[0].path, "/v/a.md");
    assert_eq!(t.pending_write_count(), 0);
}

#[test]
fn save_all_flushes_pending_buffers() {
    let mut t = TabRegistry::new(buf("/v/a.md", "A"));
    t.open_file("/v/b.md".to_string(), Some(buf("/v/b.md", "B")), 5, 0);
    t.active.insert_char('b');
    t.inactive[0].dirty = true;
    assert_eq!(t.pending_write_count(), 2);
    let w = t.save_all(5);
    assert_eq!(w.len(), 2);
    assert_eq!(t.pending_write_count(), 0);
    assert!(t.save_active(6).is_some());
    let mut scratch = TabRegistry::new(Buffer::new());
    assert!(scratch.save_active(0).is_none());
}

#[test]
fn file_changes_close_tabs_and_decide_reload() {
    let mut t = TabRegistry::new(buf("/v/a.md", "A"));
    t.open_file("/v/b.md".to_string(), Some(buf("/v/b.md", "B")), 5, 0);
    assert!(!t.file_changed(&"/v/a.md".to_string(), false, 0));
    assert_eq!(t.open_tabs, vec!["/v/b.md".to_string()]);
    assert!(t.inactive.is_empty());
    assert!(t.file_changed(&"/v/b.md".to_string(), true, 0));
    t.save_active(1000);
    assert!(!t.file_changed(&"/v/b.md".to_string(), true, 2000));
    assert!(t.file_changed(&"/v/b.md".to_string(), true, 2300));
    t.reload_active("new\ntext", 2);
    assert_eq!(t.active.contents(), "new\ntext");
    assert_eq!(t.active.viewport.scroll_off, 2);
}

#[test]
fn change_to_an_existing_file_keeps_its_tab_and_buffer() {
    let mut t = TabRegistry::new(buf("/v/a.md", "A"));
    t.open_file("/v/b.md".to_string(), Some(buf("/v/b.md", "B")), 5, 0);
    t.inactive[0].insert_char('z');
    assert!(!t.file_changed(&"/v/a.md".to_string(), true, 0));
    assert_eq!(t.inactive.len(), 1);
    assert_eq!(t.inactive[0].contents(), "zA");
    assert_eq!(t.open_tabs.len(), 2);
}
