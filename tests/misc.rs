use blackbox::config::{expand_tilde, join};
use blackbox::file_tree::{sort_entries, CreatePlan, DirEntry, DirListing, FileTree};
use blackbox::mode::Mode;
use blackbox::plugin::{
    decimal, parse_plugin_command_input, PluginId, PluginManager, PluginManifest, PluginRuntime, PluginStatus,
    CommandDef,
};
use blackbox::text::{string_of, trimmed};

fn chars(s: &str) -> Vec<char> {
    s.chars().collect()
}

#[test]
fn paths_join_like_path_join() {
    assert_eq!(join(&"/v".to_string(), &"s.md".to_string()), "/v/s.md");
    assert_eq!(join(&"/v/".to_string(), &"s.md".to_string()), "/v/s.md");
    assert_eq!(join(&"/v".to_string(), &"/abs.md".to_string()), "/abs.md");
}

#[test]
fn tilde_expands_to_home() {
    assert_eq!(expand_tilde(&"~/notes".to_string(), Some("/home/u".to_string())), Some("/home/u/notes".to_string()));
    assert_eq!(expand_tilde(&"~/notes".to_string(), None), None);
    assert_eq!(expand_tilde(&"/abs".to_string(), None), Some("/abs".to_string()));
}

#[test]
fn text_helpers() {
    assert_eq!(trimmed(&chars("\u{2003} a b \t")), chars("a b"));
    assert_eq!(string_of(&chars("héllo")), "héllo");
}

#[test]
fn mode_labels() {
    assert_eq!(Mode::Normal.label(), "NORMAL");
    assert_eq!(Mode::Insert.label(), "INSERT");
    assert_eq!(Mode::FinderOpen.label(), "FINDER");
}

fn entry(name: &str, is_dir: bool) -> DirEntry {
    DirEntry { path: format!("/v/{name}"), name: name.to_string(), is_dir }
}

#[test]
fn siblings_sort_dirs_first_then_names_ignoring_case() {
    let sorted = sort_entries(&vec![entry("b.md", false), entry("Zed", true), entry("A.md", false), entry("alpha", true)]);
    let names: Vec<&str> = sorted.iter().map(|e| e.name.as_str()).collect();
    assert_eq!(names, vec!["alpha", "Zed", "A.md", "b.md"]);
    let tied = sort_entries(&vec![entry("Note.md", false), entry("note.md", false), entry("NOTE.md", false)]);
    let names: Vec<&str> = tied.iter().map(|e| e.name.as_str()).collect();
    assert_eq!(names, vec!["Note.md", "note.md", "NOTE.md"]);
}

#[test]
fn tree_rows_follow_expansion() {
    let mut tree = FileTree::new("/v".to_string());
    let listings = vec![
        DirListing { dir: "/v".to_string(), entries: vec![entry("n.md", false), entry("d", true)] },
        DirListing { dir: "/v/d".to_string(), entries: vec![DirEntry { path: "/v/d/x.md".to_string(), name: "x.md".to_string(), is_dir: false }] },
    ];
    tree.refresh(&listings);
    let rows: Vec<(&str, usize)> = tree.nodes.iter().map(|n| (n.name.as_str(), n.depth)).collect();
    assert_eq!(rows, vec![("d", 0), ("n.md", 0)]);
    assert!(tree.toggle_selected_dir());
    tree.refresh(&listings);
    let rows: Vec<(&str, usize)> = tree.nodes.iter().map(|n| (n.name.as_str(), n.depth)).collect();
    assert_eq!(rows, vec![("d", 0), ("x.md", 1), ("n.md", 0)]);
    tree.move_selection(1);
    assert_eq!(tree.selected_node().map(|n| n.name.as_str()), Some("x.md"));
    assert_eq!(tree.create_target_base_dir(Some("/v/d".to_string())), "/v/d");
    assert!(!tree.collapse_selected_or_parent(Some("/v/d".to_string())));
    assert_eq!(tree.selected, 0);
    assert!(tree.collapse_selected_or_parent(None));
    assert!(!tree.is_expanded(&"/v/d".to_string()));
    tree.move_selection(-5);
    assert_eq!(tree.selected, 0);
    tree.move_selection(50);
    assert_eq!(tree.selected, 2);
    tree.refresh(&listings);
    assert_eq!(tree.selected, 1);
    tree.begin_create();
    assert!(tree.create_input.is_empty());
}

#[test]
fn decimals() {
    assert_eq!(decimal(0), chars("0"));
    assert_eq!(decimal(1203), chars("1203"));
}

#[test]
fn plugin_command_quotes() {
    assert_eq!(parse_plugin_command_input(&chars(" \"word count\" ")), chars("word count"));
    assert_eq!(parse_plugin_command_input(&chars("'a\\'b'")), chars("a'b"));
    assert_eq!(parse_plugin_command_input(&chars("'x\\'")), chars("x\\"));
    assert_eq!(parse_plugin_command_input(&chars("plain")), chars("plain"));
    assert_eq!(parse_plugin_command_input(&chars("\"")), chars("\""));
}

fn manifest(name: &str, commands: &[&str]) -> PluginManifest {
    PluginManifest {
        name: name.to_string(),
        version: "0.1.0".to_string(),
        entry: "plugin.wasm".to_string(),
        description: None,
        author: None,
        permissions: Vec::new(),
        commands: commands.iter().map(|c| CommandDef { name: c.to_string(), description: None }).collect(),
        keybindings: Vec::new(),
    }
}

#[test]
fn plugin_runtimes_run_declared_commands() {
    let id = PluginId::new("path:/p/wc".to_string());
    let mut rt = PluginRuntime::discover(id.clone(), "/p/wc".to_string(), Ok(manifest("wc", &["count"])), true);
    assert!(matches!(rt.status(), PluginStatus::Discovered));
    assert!(rt.supports_command(&"count".to_string()));
    assert_eq!(rt.display_name(), "wc");
    assert_eq!(rt.execute_command(&"other".to_string()), Ok(None));
    assert_eq!(rt.execute_command(&"count".to_string()), Ok(Some("plugin wc handled command: count".to_string())));
    assert!(matches!(rt.status(), PluginStatus::Loaded));
    let mut missing = PluginRuntime::discover(id, "/p/wc".to_string(), Ok(manifest("wc", &["count"])), false);
    assert_eq!(missing.execute_command(&"count".to_string()), Err("missing wasm entry: /p/wc/plugin.wasm".to_string()));
    assert!(matches!(missing.status(), PluginStatus::Error(_)));
}

#[test]
fn plugin_manager_reports() {
    let good = PluginRuntime::discover(PluginId::new("a".to_string()), "/p/a".to_string(), Ok(manifest("alpha", &["go", "run"])), true);
    let dup = PluginRuntime::discover(PluginId::new("a".to_string()), "/p/other".to_string(), Ok(manifest("dup", &[])), true);
    let bad = PluginRuntime::discover(PluginId::new("b".to_string()), "/p/b".to_string(), Err("no manifest".to_string()), false);
    let mut m = PluginManager::new(vec![good, dup, bad]);
    assert_eq!(m.plugin_count(), 2);
    assert_eq!(m.error_count(), 1);
    assert_eq!(m.summary_notification(), "plugins: 1 discovered, 1 errors");
    assert_eq!(m.error_notifications(), vec!["plugin b (/p/b): no manifest".to_string()]);
    assert_eq!(m.startup_notifications().len(), 2);
    assert_eq!(
        m.list_notifications(),
        vec!["plugin alpha [discovered] (/p/a)".to_string(), "plugin b [error: no manifest] (/p/b)".to_string()]
    );
    assert_eq!(m.command_notifications(), vec!["plugin commands: go, run".to_string()]);
    assert_eq!(m.execute_command(&"go".to_string()), vec!["plugin alpha handled command: go".to_string()]);
    assert_eq!(m.execute_command(&"nope".to_string()), vec!["plugin command not found: nope".to_string()]);
    let empty = PluginManager::new(Vec::new());
    assert_eq!(empty.list_notifications(), vec!["plugins: none configured".to_string()]);
    assert!(empty.startup_notifications().is_empty());
}

#[test]
fn planning_a_new_entry() {
    let mut tree = FileTree::new("/v".to_string());
    tree.create_input = "  ".chars().collect();
    assert_eq!(tree.plan_create(None), CreatePlan::Nothing);
    tree.create_input = "ideas".chars().collect();
    assert_eq!(tree.plan_create(None), CreatePlan::Note("/v/ideas.md".to_string()));
    tree.create_input = "todo.txt".chars().collect();
    assert_eq!(tree.plan_create(None), CreatePlan::Note("/v/todo.txt".to_string()));
    tree.create_input = ".hidden".chars().collect();
    assert_eq!(tree.plan_create(None), CreatePlan::Note("/v/.hidden.md".to_string()));
    tree.create_input = "projects/".chars().collect();
    assert_eq!(tree.plan_create(None), CreatePlan::Folder("/v/projects/".to_string()));
}
