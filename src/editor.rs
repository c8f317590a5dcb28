//! The dispatch core: the mode state machine that turns key presses and
//! ticks into state changes and into actions for the caller to carry out
//! (writes, file loads, vault scans).

use vstd::prelude::*;
use crate::buffer::{Buffer, Direction, fit, line_of, line_count};
use crate::file_tree::FileTree;
use crate::finder::FinderResult;
use crate::links::{BacklinkEntry, wikilink_at, link_under_from, resolve_wikilink_target, resolution_of, note_file_name, Resolution, VaultFile};
use crate::config::{join, join_path};
use crate::mode::Mode;
use crate::render::RenderCache;
use crate::tabs::{TabRegistry, Snapshot, pending_total, pending, path_of, snap_view, snap_views, snapshot_of, due, due_snaps, all_pending_snaps};
use crate::text::{trimmed, trim, chars_of, string_of};
use crate::plugin::{PluginAction, PluginManager, parse_plugin_command_input, plugin_command_of, cat, decimal, decimal_of};
use crate::links::vec_eq;

verus! {

/// A key, as the terminal reports it.
#[derive(Clone, Copy, Debug, PartialEq, Eq, Structural)]
pub enum Key {
    Char(char),
    Enter,
    Esc,
    Backspace,
    Left,
    Right,
    Up,
    Down,
    Other,
}

/// A key press with its modifiers.
#[derive(Clone, Copy, Debug, PartialEq, Eq, Structural)]
pub struct KeyPress {
    pub key: Key,
    pub ctrl: bool,
    pub shift: bool,
    pub alt: bool,
}

impl KeyPress {
    pub open spec fn plain(self) -> bool {
        !self.ctrl && !self.shift && !self.alt
    }

    pub open spec fn typed(self) -> bool {
        !self.ctrl && !self.alt
    }
}

/// The two finder modes.
#[derive(Clone, Copy, Debug, PartialEq, Eq, Structural)]
pub enum FinderMode {
    /// Fuzzy ranking of file paths.
    Files,
    /// Case-insensitive search of file contents.
    Content,
}

/// Work the caller carries out on the dispatch core's behalf.
#[derive(Debug)]
pub enum Action {
    /// Write a snapshot durably (temporary file, then rename).
    Write(Snapshot),
    /// Open the file at this path; then go to this 1-based line, if any.
    Open(String, Option<usize>),
    /// Resolve this wikilink key and open or offer to create its note.
    FollowLink(Vec<char>),
    /// Create the note at this path (with a title heading) and open it.
    CreateNote(String),
    /// Re-run the finder for the current mode and query.
    RefreshFinder,
    /// Rescan the vault for backlinks to the active note.
    RefreshBacklinks,
    /// Relist the vault for the file tree.
    RefreshTree,
    /// Collapse the selected directory, or select its parent directory.
    CollapseTree,
    /// Create the file or folder typed into the tree's create input.
    CommitCreate,
    /// Run a `:` command line.
    RunCommand(String),
    /// Leave the program.
    Quit,
}

/// How long an armed quit confirmation lasts, in milliseconds.
pub const QUIT_CONFIRM_MS: u64 = 2000;

/// The editor session.
pub struct Editor {
    pub mode: Mode,
    pub tabs: TabRegistry,
    pub tree: FileTree,
    pub render_cache: RenderCache,
    pub sidebar_visible: bool,
    pub finder_mode: FinderMode,
    pub finder_query: Vec<char>,
    pub finder_results: Vec<FinderResult>,
    pub finder_selected: usize,
    pub command_input: Vec<char>,
    pub quit_armed: bool,
    /// When an armed quit confirmation expires, in milliseconds.
    pub quit_until: Option<u64>,
    /// The first key of a two-key sequence.
    pub pending_key: Option<char>,
    /// The note a wikilink names, awaiting confirmation to create it.
    pub pending_create_path: Option<String>,
    pub backlinks_visible: bool,
    pub backlinks: Vec<BacklinkEntry>,
    pub backlinks_selected: usize,
    pub notifications: Vec<String>,
    /// The discovered plugins.
    pub plugins: PluginManager,
    pub should_quit: bool,
    /// Delay between the last edit and the save, in milliseconds.
    pub debounce_ms: u64,
    pub scroll_off: u16,
    pub max_results: usize,
}

/// `r` starts with one write per snapshot of `want`, in order.
pub open spec fn writes_exactly(r: Seq<Action>, want: Seq<(Seq<char>, Seq<char>)>) -> bool {
    &&& r.len() >= want.len()
    &&& forall|i: int| 0 <= i < want.len() ==> (#[trigger] r[i] matches Action::Write(w) && snap_view(w) == want[i])
}

/// `r` writes every snapshot of `want`, then quits.
pub open spec fn save_and_quit(r: Seq<Action>, want: Seq<(Seq<char>, Seq<char>)>) -> bool {
    &&& r.len() == want.len() + 1
    &&& writes_exactly(r, want)
    &&& r[want.len() as int] is Quit
}

/// The quit key `q`: with nothing pending it quits at once; with writes
/// pending the first press only arms the confirmation (nothing written,
/// no quit), and a press while armed writes every pending buffer and quits.
pub open spec fn quit_key_post(pre: Editor, post: Editor, k: KeyPress, now: u64, r: Seq<Action>) -> bool {
    k.key == Key::Char('q') && !k.ctrl ==> {
        &&& pending_total(&pre.tabs) == 0 ==> post.should_quit && r.len() == 1 && r[0] is Quit
        &&& pending_total(&pre.tabs) > 0 && pre.quit_armed ==> post.should_quit && !post.quit_armed
            && post.quit_until is None && save_and_quit(r, all_pending_snaps(pre.tabs))
        &&& pending_total(&pre.tabs) > 0 && !pre.quit_armed ==> post.quit_armed && post.should_quit == pre.should_quit
            && post.quit_until == Some(crate::tabs::rearmed(now, QUIT_CONFIRM_MS)) && r.len() == 0
            && post.tabs == pre.tabs
    }
}

/// The key completes the `g d` leader sequence.
pub open spec fn leader_d(pre: Editor, k: KeyPress) -> bool {
    pre.pending_key == Some('g') && k.key == Key::Char('d')
}

/// What a key does in normal mode.
pub open spec fn normal_post(pre: Editor, post: Editor, k: KeyPress, now: u64, r: Seq<Action>) -> bool {
    &&& k.key != Key::Char('q') ==> !post.quit_armed && post.quit_until is None
    &&& pre.pending_key == Some('g') && !(k.key == Key::Char('g') && k.plain()) ==> post.pending_key is None
    &&& post.tabs.active.viewport.top_line != pre.tabs.active.viewport.top_line ==> post.render_cache.dirty
    &&& leader_d(pre, k) ==> {
        &&& post.mode == pre.mode
        &&& post.tabs == pre.tabs
        &&& link_under_cursor(pre.tabs.active) matches Some(t) ==> (r.len() == 1 && (r[0] matches Action::FollowLink(v) && v@ == t))
        &&& link_under_cursor(pre.tabs.active) is None ==> r.len() == 0
    }
    &&& !leader_d(pre, k) ==> quit_key_post(pre, post, k, now, r)
    &&& !leader_d(pre, k) && k.key == Key::Char('Q') && !k.ctrl ==> post.should_quit && save_and_quit(r, all_pending_snaps(pre.tabs))
    &&& !leader_d(pre, k) && k.key == Key::Char('g') && k.plain() ==> post.pending_key == Some('g')
    &&& !leader_d(pre, k) && k.key == Key::Char('i') && !k.ctrl ==> post.mode == Mode::Insert
    &&& !leader_d(pre, k) && k.key == Key::Char(':') && !k.ctrl ==> post.mode == Mode::Command && post.command_input@.len() == 0
    &&& !leader_d(pre, k) && k.key == Key::Char('/') && !k.ctrl ==> post.mode == Mode::FinderOpen && post.finder_mode == FinderMode::Files
        && post.finder_query@.len() == 0
}

/// What a key does in insert mode: edits change the text at the cursor,
/// mark the buffer and the render cache dirty and re-arm the save deadline.
pub open spec fn insert_post(pre: Editor, post: Editor, k: KeyPress, now: u64, r: Seq<Action>) -> bool {
    let s = pre.tabs.active.text();
    let c = pre.tabs.active.cursor;
    let i = crate::buffer::cursor_index(s, c);
    &&& post.tabs.active.viewport.top_line != pre.tabs.active.viewport.top_line ==> post.render_cache.dirty
    &&& k.key == Key::Esc && !k.ctrl ==> post.mode == Mode::Normal && post.tabs == pre.tabs
    &&& k.key == Key::Enter && !k.ctrl ==> post.tabs.active.text() == s.insert(i, '\n') && post.tabs.active.dirty
        && post.render_cache.dirty && post.tabs.active.save_deadline == Some(crate::tabs::rearmed(now, pre.debounce_ms))
    &&& (k.key matches Key::Char(ch) && !(k.ctrl && ch == 'e')) ==> post.tabs.active.text() == s.insert(i, k.key->Char_0)
        && post.tabs.active.dirty && post.render_cache.dirty
        && post.tabs.active.save_deadline == Some(crate::tabs::rearmed(now, pre.debounce_ms))
    &&& k.key == Key::Backspace && !k.ctrl ==> {
        &&& post.render_cache.dirty
        &&& post.tabs.active.save_deadline == Some(crate::tabs::rearmed(now, pre.debounce_ms))
        &&& c.row > 0 || c.col > 0 ==> post.tabs.active.dirty
        &&& c.col > 0 ==> post.tabs.active.text() == s.remove(i - 1)
        &&& c.col == 0 && c.row > 0 ==> post.tabs.active.text() == s.subrange(0, i - crate::buffer::terminator_len(s, i))
            + s.subrange(i, s.len() as int)
        &&& c.col == 0 && c.row == 0 ==> post.tabs.active.text() == s
    }
    &&& (k.key == Key::Left || k.key == Key::Right || k.key == Key::Up || k.key == Key::Down) && !k.ctrl
        ==> post.tabs.active.text() == s && post.mode == pre.mode
}

/// What a key does on the command line.
pub open spec fn command_post(pre: Editor, post: Editor, k: KeyPress, r: Seq<Action>) -> bool {
    &&& post.tabs == pre.tabs
    &&& k.key == Key::Esc ==> post.mode == Mode::Normal && post.command_input@.len() == 0 && r.len() == 0
    &&& k.key == Key::Enter ==> post.mode == Mode::Normal && post.command_input@.len() == 0 && (
    trim(pre.command_input@).len() == 0 ==> r.len() == 0) && (trim(pre.command_input@).len() > 0
        ==> (r.len() == 1 && (r[0] matches Action::RunCommand(c) && c@ == trim(pre.command_input@))))
    &&& k.key == Key::Backspace ==> post.command_input@ == if pre.command_input@.len() > 0 {
        pre.command_input@.drop_last()
    } else {
        pre.command_input@
    }
    &&& (k.key matches Key::Char(ch) && k.typed()) ==> post.command_input@ == pre.command_input@.push(k.key->Char_0)
}

/// What a key does in the file tree.
pub open spec fn sidebar_post(pre: Editor, post: Editor, k: KeyPress, r: Seq<Action>) -> bool {
    let sel = pre.tree.selected as int;
    let n = pre.tree.nodes@.len() as int;
    &&& post.tabs == pre.tabs
    &&& k.ctrl && k.key == Key::Char('e') ==> !post.sidebar_visible && post.mode == Mode::Normal
    &&& !k.ctrl && k.key == Key::Esc ==> post.mode == Mode::Normal
    &&& !k.ctrl && k.key == Key::Char('a') ==> post.mode == Mode::SidebarCreate && post.tree.create_input@.len() == 0
    &&& !k.ctrl && (k.key == Key::Char('h') || k.key == Key::Left) ==> r.len() == 1 && r[0] is CollapseTree
    &&& !k.ctrl && (k.key == Key::Char('l') || k.key == Key::Right || k.key == Key::Enter) && sel < n ==> {
        &&& !pre.tree.nodes@[sel].is_dir ==> r.len() == 1 && (r[0] matches Action::Open(p, None) && p@ == pre.tree.nodes@[sel].path@)
            && post.mode == Mode::Normal
        &&& pre.tree.nodes@[sel].is_dir ==> r.len() == 1 && r[0] is RefreshTree
    }
    &&& !k.ctrl && (k.key == Key::Char('j') || k.key == Key::Down) && n > 0 ==> post.tree.selected as int == if sel + 1 > n - 1 {
        n - 1
    } else {
        sel + 1
    }
    &&& !k.ctrl && (k.key == Key::Char('k') || k.key == Key::Up) && n > 0 ==> post.tree.selected as int == if sel - 1 < 0 {
        0
    } else if sel - 1 > n - 1 {
        n - 1
    } else {
        sel - 1
    }
}

/// What a key does while a new tree entry's name is typed.
pub open spec fn create_post(pre: Editor, post: Editor, k: KeyPress, r: Seq<Action>) -> bool {
    &&& post.tabs == pre.tabs
    &&& k.key == Key::Esc ==> post.mode == Mode::Sidebar && post.tree.create_input@.len() == 0
    &&& k.key == Key::Enter ==> r.len() == 1 && r[0] is CommitCreate
    &&& (k.key matches Key::Char(ch)) ==> post.tree.create_input@ == pre.tree.create_input@.push(k.key->Char_0)
}

/// What a key does in the finder.
pub open spec fn finder_post(pre: Editor, post: Editor, k: KeyPress, r: Seq<Action>) -> bool {
    let sel = pre.finder_selected as int;
    let n = pre.finder_results@.len() as int;
    &&& post.tabs == pre.tabs
    &&& k.key == Key::Esc ==> post.mode == Mode::Normal && post.finder_query@.len() == 0 && post.finder_results@.len() == 0
        && post.finder_selected == 0 && r.len() == 0
    &&& k.key == Key::Enter ==> post.mode == Mode::Normal && post.finder_query@.len() == 0 && post.finder_results@.len() == 0
    &&& k.key == Key::Enter && sel < n ==> r.len() == 1 && (r[0] matches Action::Open(p, l)
        && p@ == pre.finder_results@[sel].path@ && l == pre.finder_results@[sel].line)
    &&& k.key == Key::Enter && sel >= n ==> r.len() == 0
    &&& (k.key == Key::Char('j') || k.key == Key::Down) && n > 0 ==> post.finder_selected == if sel + 1 < n {
        sel + 1
    } else {
        n - 1
    }
    &&& (k.key == Key::Char('k') || k.key == Key::Up) && n > 0 && sel > 0 ==> post.finder_selected == sel - 1
    &&& k.key == Key::Backspace ==> post.finder_query@ == (if pre.finder_query@.len() > 0 {
        pre.finder_query@.drop_last()
    } else {
        pre.finder_query@
    }) && r.len() == 2 && r[1] is RefreshFinder
    &&& (k.key matches Key::Char(ch) && ch != 'j' && ch != 'k' && k.typed()) ==> post.finder_query@
        == pre.finder_query@.push(k.key->Char_0) && r.len() == 2 && r[1] is RefreshFinder
}

/// What a key does while asking to create a linked note.
pub open spec fn confirm_post(pre: Editor, post: Editor, k: KeyPress, r: Seq<Action>) -> bool {
    &&& post.tabs == pre.tabs
    &&& (k.key == Key::Char('y') || k.key == Key::Char('Y')) ==> post.mode == Mode::Normal
        && post.pending_create_path is None && (pre.pending_create_path matches Some(p) ==> (r.len() == 1
        && (r[0] matches Action::CreateNote(q) && q == p)))
    &&& (k.key == Key::Char('n') || k.key == Key::Char('N') || k.key == Key::Esc) ==> post.mode == Mode::Normal
        && post.pending_create_path is None && r.len() == 0
}

/// What a key does in the backlinks panel.
pub open spec fn backlinks_post(pre: Editor, post: Editor, k: KeyPress, r: Seq<Action>) -> bool {
    &&& post.tabs == pre.tabs
    &&& !k.ctrl && k.key == Key::Esc ==> !post.backlinks_visible && post.mode == Mode::Normal
    &&& !k.ctrl && k.key == Key::Enter && pre.backlinks_selected < pre.backlinks@.len() ==> (r.len() == 1
        && (r[0] matches Action::Open(p, Some(l)) && p@ == pre.backlinks@[pre.backlinks_selected as int].path@
        && l == pre.backlinks@[pre.backlinks_selected as int].line))
}

/// The link key under a valid cursor of buffer `b`.
pub open spec fn link_under_cursor(b: Buffer) -> Option<Seq<char>> {
    let line = line_of(b.text(), b.cursor.row as int);
    link_under_from(line, 0, fit(line, b.cursor.col as int))
}

impl Editor {
    pub open spec fn wf(&self) -> bool {
        self.tabs.wf()
    }

    /// A session in normal mode editing `buffer`.
    pub fn new(buffer: Buffer, root: String, debounce_ms: u64, scroll_off: u16, max_results: usize) -> (r: Editor)
        requires
            buffer.wf(),
        ensures
            r.wf(),
            r.mode == Mode::Normal,
            r.tabs.active == buffer,
            !r.quit_armed,
            !r.should_quit,
            r.render_cache.dirty,
    {
        Editor {
            mode: Mode::Normal,
            tabs: TabRegistry::new(buffer),
            tree: FileTree::new(root),
            render_cache: RenderCache::new(),
            sidebar_visible: false,
            finder_mode: FinderMode::Files,
            finder_query: Vec::new(),
            finder_results: Vec::new(),
            finder_selected: 0,
            command_input: Vec::new(),
            quit_armed: false,
            quit_until: None,
            pending_key: None,
            pending_create_path: None,
            backlinks_visible: false,
            backlinks: Vec::new(),
            backlinks_selected: 0,
            notifications: Vec::new(),
            plugins: PluginManager { runtimes: Vec::new() },
            should_quit: false,
            debounce_ms,
            scroll_off,
            max_results,
        }
    }

    /// Adds a status notification, keeping the last eight.
    pub fn push_notification(&mut self, message: String)
        ensures
            final(self).notifications@.len() == if old(self).notifications@.len() + 1 > 8 {
                old(self).notifications@.len() as int
            } else {
                old(self).notifications@.len() + 1int
            },
            final(self).notifications@.len() > 0,
            final(self).notifications@.last() == message,
            *final(self) == (Editor { notifications: final(self).notifications, ..*old(self) }),
    {
        self.notifications.push(message);
        if self.notifications.len() > 8 {
            let ghost before = self.notifications@;
            self.notifications.remove(0);
            assert(self.notifications@.last() == before.last());
        }
    }

    fn writes(snaps: Vec<Snapshot>) -> (r: Vec<Action>)
        ensures
            r@.len() == snaps@.len(),
            forall|i: int| 0 <= i < snaps@.len() ==> (#[trigger] r@[i] matches Action::Write(w) && snap_view(w) == snap_view(snaps@[i])),
    {
        let ghost all = snaps@;
        let mut rest = snaps;
        let mut out: Vec<Action> = Vec::new();
        while rest.len() > 0
            invariant
                out@.len() + rest@.len() == all.len(),
                rest@ == all.subrange(out@.len() as int, all.len() as int),
                forall|i: int| 0 <= i < out@.len() ==> (#[trigger] out@[i] matches Action::Write(w) && snap_view(w) == snap_view(all[i])),
            decreases rest.len(),
        {
            let ghost k = out@.len();
            let s = rest.remove(0);
            assert(s == all[k as int]);
            out.push(Action::Write(s));
            assert(rest@ == all.subrange(out@.len() as int, all.len() as int));
        }
        out
    }

    /// Handles a content edit: the render cache goes stale and the active
    /// buffer's save deadline is re-armed.
    fn after_edit(&mut self, now: u64)
        requires
            old(self).wf(),
        ensures
            final(self).wf(),
            final(self).render_cache.dirty,
            final(self).tabs.active.save_deadline == Some(crate::tabs::rearmed(now, old(self).debounce_ms)),
            final(self).tabs.active.text() == old(self).tabs.active.text(),
            final(self).tabs.active.cursor == old(self).tabs.active.cursor,
            final(self).tabs.active.dirty == old(self).tabs.active.dirty,
            final(self).mode == old(self).mode,
            final(self).debounce_ms == old(self).debounce_ms,
    {
        self.render_cache.mark_dirty();
        self.tabs.schedule_auto_save(now, self.debounce_ms);
    }

    /// Moves the cursor; a scroll makes the render cache stale.
    fn move_cursor(&mut self, dir: Direction)
        requires
            old(self).wf(),
        ensures
            final(self).wf(),
            final(self).tabs.active.text() == old(self).tabs.active.text(),
            final(self).tabs.active.viewport.top_line != old(self).tabs.active.viewport.top_line ==> final(self).render_cache.dirty,
            *final(self) == (Editor { tabs: final(self).tabs, render_cache: final(self).render_cache, ..*old(self) }),
    {
        if self.tabs.active.move_cursor(dir) {
            self.render_cache.mark_dirty();
        }
    }

    /// A periodic tick at `now`: an expired quit confirmation disarms, and
    /// every buffer whose save deadline has passed is written.
    pub fn handle_tick(&mut self, now: u64) -> (r: Vec<Action>)
        requires
            old(self).wf(),
        ensures
            final(self).wf(),
            (old(self).quit_until matches Some(u) && u <= now) ==> !final(self).quit_armed && final(self).quit_until is None,
            !(old(self).quit_until matches Some(u) && u <= now) ==> final(self).quit_armed == old(self).quit_armed
                && final(self).quit_until == old(self).quit_until,
            final(self).mode == old(self).mode,
            ({
                let want = (if due(old(self).tabs.active, now) && old(self).tabs.active.path is Some {
                    seq![snapshot_of(old(self).tabs.active)]
                } else {
                    Seq::empty()
                }) + due_snaps(old(self).tabs.inactive@, now, old(self).tabs.inactive@.len() as int);
                &&& r@.len() == want.len()
                &&& forall|i: int| 0 <= i < want.len() ==> (#[trigger] r@[i] matches Action::Write(w) && snap_view(w) == want[i])
            }),
            final(self).tabs.inactive@.len() == old(self).tabs.inactive@.len(),
            forall|k: int| 0 <= k < old(self).tabs.inactive@.len() ==> (#[trigger] final(self).tabs.inactive@[k]).text()
                == old(self).tabs.inactive@[k].text() && path_of(final(self).tabs.inactive@[k]) == path_of(
                old(self).tabs.inactive@[k],
            ),
            forall|k: int| 0 <= k < old(self).tabs.inactive@.len() && due(old(self).tabs.inactive@[k], now)
                ==> !pending(#[trigger] final(self).tabs.inactive@[k]),
            forall|k: int| 0 <= k < old(self).tabs.inactive@.len() && !due(old(self).tabs.inactive@[k], now)
                ==> #[trigger] final(self).tabs.inactive@[k] == old(self).tabs.inactive@[k],
            due(old(self).tabs.active, now) && old(self).tabs.active.path is Some ==> !pending(final(self).tabs.active)
                && final(self).tabs.active.text() == old(self).tabs.active.text(),
            !(due(old(self).tabs.active, now) && old(self).tabs.active.path is Some) ==> final(self).tabs.active
                == old(self).tabs.active,
            final(self).tabs.open_tabs@ == old(self).tabs.open_tabs@,
    {
        let expired = match self.quit_until {
            Some(u) => u <= now,
            None => false,
        };
        if expired {
            self.quit_armed = false;
            self.quit_until = None;
        }
        let snaps = self.tabs.tick_saves(now);
        proof {
            assert forall|i: int| 0 <= i < snaps@.len() implies snap_view(#[trigger] snaps@[i]) == snap_views(snaps@)[i] by {}
        }
        Self::writes(snaps)
    }

    /// Routes a key press by mode.
    pub fn handle_key(&mut self, k: KeyPress, now: u64) -> (r: Vec<Action>)
        requires
            old(self).wf(),
        ensures
            final(self).wf(),
            old(self).mode == Mode::Normal ==> normal_post(*old(self), *final(self), k, now, r@),
            old(self).mode == Mode::Insert ==> insert_post(*old(self), *final(self), k, now, r@),
            old(self).mode == Mode::Command ==> command_post(*old(self), *final(self), k, r@),
            old(self).mode == Mode::Sidebar ==> sidebar_post(*old(self), *final(self), k, r@),
            old(self).mode == Mode::SidebarCreate ==> create_post(*old(self), *final(self), k, r@),
            old(self).mode == Mode::FinderOpen ==> finder_post(*old(self), *final(self), k, r@),
            old(self).mode == Mode::ConfirmCreate ==> confirm_post(*old(self), *final(self), k, r@),
            old(self).mode == Mode::Backlinks ==> backlinks_post(*old(self), *final(self), k, r@),
    {
        match self.mode {
            Mode::Normal => self.handle_key_normal(k, now),
            Mode::Insert => self.handle_key_insert(k, now),
            Mode::Command => self.handle_key_command(k),
            Mode::Sidebar => self.handle_key_sidebar(k),
            Mode::SidebarCreate => self.handle_key_sidebar_create(k),
            Mode::FinderOpen => self.handle_key_finder(k),
            Mode::ConfirmCreate => self.handle_key_confirm_create(k),
            Mode::Backlinks => self.handle_key_backlinks(k),
        }
    }

    /// Normal mode. Any key but `q` disarms the quit confirmation. After
    /// `g`, a `d` follows the wikilink under the cursor and any other key
    /// just clears the pending `g`. `q` quits when nothing is pending, arms
    /// the confirmation otherwise, and saves everything and quits when
    /// armed; `Q` saves everything and quits.
    pub fn handle_key_normal(&mut self, k: KeyPress, now: u64) -> (r: Vec<Action>)
        requires
            old(self).wf(),
        ensures
            final(self).wf(),
            normal_post(*old(self), *final(self), k, now, r@),
    {
        if k.key != Key::Char('q') {
            self.quit_armed = false;
            self.quit_until = None;
        }
        let leader = self.pending_key == Some('g');
        if leader {
            self.pending_key = None;
        }
        if leader && k.key == Key::Char('d') {
            self.follow_wikilink_under_cursor()
        } else if k.ctrl && k.key == Key::Char('e') {
            let mut out: Vec<Action> = Vec::new();
            self.sidebar_visible = !self.sidebar_visible;
            if self.sidebar_visible {
                self.mode = Mode::Sidebar;
                out.push(Action::RefreshTree);
            }
            out
        } else if k.ctrl && k.key == Key::Char('b') {
            let mut out: Vec<Action> = Vec::new();
            self.toggle_backlinks_panel();
            out.push(Action::RefreshTree);
            if self.backlinks_visible {
                out.push(Action::RefreshBacklinks);
            }
            out
        } else {
            self.normal_command(k, now)
        }
    }

    /// The single-key commands of normal mode.
    fn normal_command(&mut self, k: KeyPress, now: u64) -> (r: Vec<Action>)
        requires
            old(self).wf(),
        ensures
            final(self).wf(),
            k.key != Key::Char('q') ==> final(self).quit_armed == old(self).quit_armed && final(self).quit_until == old(self).quit_until,
            !(k.key == Key::Char('g') && k.plain()) ==> final(self).pending_key == old(self).pending_key,
            final(self).tabs.active.viewport.top_line != old(self).tabs.active.viewport.top_line ==> final(self).render_cache.dirty,
            quit_key_post(*old(self), *final(self), k, now, r@),
            k.key == Key::Char('Q') && !k.ctrl ==> final(self).should_quit && save_and_quit(r@, all_pending_snaps(old(self).tabs)),
            k.key == Key::Char('g') && k.plain() ==> final(self).pending_key == Some('g'),
            k.key == Key::Char('i') && !k.ctrl ==> final(self).mode == Mode::Insert,
            k.key == Key::Char(':') && !k.ctrl ==> final(self).mode == Mode::Command && final(self).command_input@.len() == 0,
            k.key == Key::Char('/') && !k.ctrl ==> final(self).mode == Mode::FinderOpen && final(self).finder_mode == FinderMode::Files
                && final(self).finder_query@.len() == 0,
    {
        let mut out: Vec<Action> = Vec::new();
        let key = k.key;
        if key == Key::Char('g') && !k.ctrl && !k.shift && !k.alt {
            self.pending_key = Some('g');
        } else if key == Key::Char('q') && !k.ctrl {
            out = self.quit_request(now);
        } else if key == Key::Char('Q') && !k.ctrl {
            let snaps = self.tabs.save_all(now);
            out = Self::writes(snaps);
            self.should_quit = true;
            out.push(Action::Quit);
        } else if key == Key::Char('i') && !k.ctrl {
            self.mode = Mode::Insert;
        } else if key == Key::Char(':') && !k.ctrl {
            self.mode = Mode::Command;
            self.command_input = Vec::new();
            self.render_cache.mark_dirty();
        } else if key == Key::Char('n') && k.ctrl {
            if let Some(p) = self.tabs.switch_relative(1) {
                out.push(Action::Open(p, None));
            }
        } else if key == Key::Char('p') && k.ctrl {
            if let Some(p) = self.tabs.switch_relative(-1) {
                out.push(Action::Open(p, None));
            }
        } else if key == Key::Char('/') && !k.ctrl {
            self.open_finder(FinderMode::Files);
            out.push(Action::RefreshTree);
            out.push(Action::RefreshFinder);
        } else if (key == Key::Char('F') || key == Key::Char('f')) && k.ctrl && k.shift {
            self.open_finder(FinderMode::Content);
            out.push(Action::RefreshTree);
            out.push(Action::RefreshFinder);
        } else if key == Key::Char('h') || key == Key::Left {
            self.move_cursor(Direction::Left);
        } else if key == Key::Char('j') || key == Key::Down {
            self.move_cursor(Direction::Down);
        } else if key == Key::Char('k') || key == Key::Up {
            self.move_cursor(Direction::Up);
        } else if key == Key::Char('l') || key == Key::Right {
            self.move_cursor(Direction::Right);
        } else if key == Key::Char('0') {
            self.move_cursor(Direction::LineStart);
        } else if key == Key::Char('$') {
            self.move_cursor(Direction::LineEnd);
        } else if key == Key::Char('s') && k.ctrl {
            if let Some(snap) = self.tabs.save_active(now) {
                out.push(Action::Write(snap));
            }
        }
        out
    }

    /// The quit key: quits when no write is pending; else the first press
    /// arms a confirmation that expires after two seconds, and a press while
    /// armed saves every buffer and quits.
    fn quit_request(&mut self, now: u64) -> (r: Vec<Action>)
        requires
            old(self).wf(),
        ensures
            final(self).wf(),
            quit_key_post(*old(self), *final(self), KeyPress { key: Key::Char('q'), ctrl: false, shift: false, alt: false }, now, r@),
            final(self).pending_key == old(self).pending_key,
            final(self).mode == old(self).mode,
            final(self).tabs.active.viewport == old(self).tabs.active.viewport,
    {
        let mut out: Vec<Action> = Vec::new();
        let pending = self.tabs.pending_write_count();
        if pending == 0 {
            self.should_quit = true;
            out.push(Action::Quit);
        } else if self.quit_armed {
            let snaps = self.tabs.save_all(now);
            out = Self::writes(snaps);
            self.should_quit = true;
            self.quit_armed = false;
            self.quit_until = None;
            out.push(Action::Quit);
        } else {
            self.quit_armed = true;
            self.quit_until = Some(now.saturating_add(QUIT_CONFIRM_MS));
        }
        out
    }

    /// Asks to follow the wikilink under the cursor, or notes that there is none.
    fn follow_wikilink_under_cursor(&mut self) -> (r: Vec<Action>)
        requires
            old(self).wf(),
        ensures
            final(self).wf(),
            *final(self) == (Editor { notifications: final(self).notifications, ..*old(self) }),
            link_under_cursor(old(self).tabs.active) matches Some(t) ==> (r@.len() == 1 && (r@[0] matches Action::FollowLink(v) && v@ == t)),
            link_under_cursor(old(self).tabs.active) is None ==> r@.len() == 0,
    {
        let mut out: Vec<Action> = Vec::new();
        let row = self.tabs.active.cursor.row;
        let line = self.tabs.active.line_chars(row);
        let col = self.tabs.active.cursor.col;
        let kk = fit_index(&line, col);
        match wikilink_at(&line, kk) {
            Some(t) => out.push(Action::FollowLink(t)),
            None => {
                let note = crate::text::string_of(&vec![
                    'N', 'o', ' ', 'W', 'i', 'k', 'i', 'L', 'i', 'n', 'k', ' ', 'u', 'n', 'd',
                    'e', 'r', ' ', 'c', 'u', 'r', 's', 'o', 'r',
                ]);
                self.push_notification(note);
            },
        }
        out
    }

    /// Follows wikilink key `key`, given whether `key.md` exists directly
    /// under the vault root and the vault listing. Returns the note to open:
    /// `key.md` under the root for an exact match, else the listed file that
    /// matches up to case. When nothing matches, no note is opened: the
    /// editor asks whether to create `key.md` under the root.
    pub fn follow_link(&mut self, key: &Vec<char>, exact_exists: bool, files: &Vec<VaultFile>) -> (r: Option<String>)
        requires
            old(self).wf(),
        ensures
            final(self).wf(),
            final(self).tabs == old(self).tabs,
            resolution_of(key@, exact_exists, files@) == Resolution::Exact ==> (r matches Some(p) && p@ == join_path(
                old(self).tree.root@,
                note_file_name(key@),
            )) && final(self).mode == old(self).mode,
            resolution_of(key@, exact_exists, files@) matches Resolution::Listed(i) ==> (r matches Some(p) && p@
                == files@[i as int].path@) && final(self).mode == old(self).mode,
            resolution_of(key@, exact_exists, files@) == Resolution::Missing ==> r is None && final(self).mode
                == Mode::ConfirmCreate && (final(self).pending_create_path matches Some(p) && p@ == join_path(
                old(self).tree.root@,
                note_file_name(key@),
            )) && final(self).render_cache.dirty,
            resolution_of(key@, exact_exists, files@) == Resolution::Empty ==> r is None && final(self).mode == old(self).mode,
    {
        let mut name = key.clone();
        name.push('.');
        name.push('m');
        name.push('d');
        assert(name@ == note_file_name(key@));
        match resolve_wikilink_target(key, exact_exists, files) {
            Resolution::Exact => Some(join(&self.tree.root, &string_of(&name))),
            Resolution::Listed(i) => Some(files[i].path.clone()),
            Resolution::Missing => {
                self.pending_create_path = Some(join(&self.tree.root, &string_of(&name)));
                self.mode = Mode::ConfirmCreate;
                self.render_cache.mark_dirty();
                None
            },
            Resolution::Empty => None,
        }
    }

    /// Opens the file at `path` in a tab (see `TabRegistry::open_file`),
    /// with the configured scroll margin; a switch of buffer makes the
    /// render cache stale. Returns the snapshot to write when the previous
    /// buffer was saved first.
    pub fn open_file(&mut self, path: String, loaded: Option<Buffer>, now: u64) -> (r: (Option<Snapshot>, Result<(), crate::tabs::OpenError>))
        requires
            old(self).wf(),
            loaded matches Some(b) ==> b.wf() && path_of(b) == Some(path@),
        ensures
            final(self).wf(),
            path_of(old(self).tabs.active) == Some(path@) ==> r.0 is None && r.1 is Ok && final(self).tabs == old(self).tabs,
            r.1 is Ok ==> path_of(final(self).tabs.active) == Some(path@) && final(self).render_cache.dirty,
            r.1 is Ok && path_of(old(self).tabs.active) != Some(path@) ==> final(self).tabs.active.viewport.scroll_off
                == old(self).scroll_off && exists|i: int| 0 <= i < final(self).tabs.open_tabs@.len()
                && (#[trigger] final(self).tabs.open_tabs@[i])@ == path@,
            r.1 is Err ==> path_of(final(self).tabs.active) == path_of(old(self).tabs.active) && final(self).tabs.active.text()
                == old(self).tabs.active.text() && final(self).tabs.active.cursor == old(self).tabs.active.cursor
                && final(self).tabs.inactive@ == old(self).tabs.inactive@ && final(self).tabs.open_tabs@ == old(self).tabs.open_tabs@,
            r.0 matches Some(snap) ==> Some(snap.path@) == path_of(old(self).tabs.active) && snap.text@ == old(self).tabs.active.text(),
            final(self).mode == old(self).mode,
    {
        let r = self.tabs.open_file(path, loaded, self.scroll_off, now);
        if r.1.is_ok() {
            self.render_cache.mark_dirty();
        }
        r
    }

    /// Opens the finder in `mode` with an empty query.
    pub fn open_finder(&mut self, mode: FinderMode)
        requires
            old(self).wf(),
        ensures
            final(self).wf(),
            final(self).mode == Mode::FinderOpen,
            final(self).finder_mode == mode,
            final(self).finder_query@.len() == 0,
            final(self).finder_selected == 0,
            *final(self) == (Editor {
                mode: final(self).mode,
                finder_mode: final(self).finder_mode,
                finder_query: final(self).finder_query,
                finder_selected: final(self).finder_selected,
                ..*old(self)
            }),
    {
        self.mode = Mode::FinderOpen;
        self.finder_mode = mode;
        self.finder_query = Vec::new();
        self.finder_selected = 0;
    }

    /// Shows or hides the backlinks panel; showing it focuses it, hiding it
    /// returns to normal mode.
    pub fn toggle_backlinks_panel(&mut self)
        requires
            old(self).wf(),
        ensures
            final(self).wf(),
            final(self).backlinks_visible == !old(self).backlinks_visible,
            final(self).mode == if final(self).backlinks_visible { Mode::Backlinks } else { Mode::Normal },
            final(self).render_cache.dirty,
            *final(self) == (Editor {
                mode: final(self).mode,
                backlinks_visible: final(self).backlinks_visible,
                backlinks: final(self).backlinks,
                backlinks_selected: final(self).backlinks_selected,
                render_cache: final(self).render_cache,
                ..*old(self)
            }),
    {
        self.backlinks_visible = !self.backlinks_visible;
        if self.backlinks_visible {
            self.backlinks = Vec::new();
            self.backlinks_selected = 0;
            self.mode = Mode::Backlinks;
        } else {
            self.mode = Mode::Normal;
        }
        self.render_cache.mark_dirty();
    }

    /// Insert mode: typing edits the active buffer and re-arms its save
    /// deadline; Esc returns to normal mode.
    pub fn handle_key_insert(&mut self, k: KeyPress, now: u64) -> (r: Vec<Action>)
        requires
            old(self).wf(),
        ensures
            final(self).wf(),
            insert_post(*old(self), *final(self), k, now, r@),
    {
        let mut out: Vec<Action> = Vec::new();
        if k.ctrl && k.key == Key::Char('e') {
            self.sidebar_visible = !self.sidebar_visible;
            if self.sidebar_visible {
                self.mode = Mode::Sidebar;
                out.push(Action::RefreshTree);
            }
            return out;
        }
        match k.key {
            Key::Esc => {
                self.mode = Mode::Normal;
            },
            Key::Enter => {
                self.tabs.active.insert_newline();
                self.after_edit(now);
            },
            Key::Backspace => {
                self.tabs.active.delete_char_before();
                self.after_edit(now);
            },
            Key::Char(ch) => {
                self.tabs.active.insert_char(ch);
                self.after_edit(now);
            },
            Key::Left => self.move_cursor(Direction::Left),
            Key::Right => self.move_cursor(Direction::Right),
            Key::Up => self.move_cursor(Direction::Up),
            Key::Down => self.move_cursor(Direction::Down),
            _ => {},
        }
        out
    }

    /// Command mode: typed characters build the command line; Enter runs it
    /// (trimmed, when not empty) and Esc abandons it; leaving clears it.
    pub fn handle_key_command(&mut self, k: KeyPress) -> (r: Vec<Action>)
        requires
            old(self).wf(),
        ensures
            final(self).wf(),
            command_post(*old(self), *final(self), k, r@),
    {
        let mut out: Vec<Action> = Vec::new();
        match k.key {
            Key::Esc => {
                self.mode = Mode::Normal;
                self.command_input = Vec::new();
                self.render_cache.mark_dirty();
            },
            Key::Enter => {
                let command = trimmed(&self.command_input);
                self.mode = Mode::Normal;
                self.command_input = Vec::new();
                self.render_cache.mark_dirty();
                if command.len() > 0 {
                    out.push(Action::RunCommand(crate::text::string_of(&command)));
                }
            },
            Key::Backspace => {
                self.command_input.pop();
                self.render_cache.mark_dirty();
            },
            Key::Char(ch) => {
                if !k.ctrl && !k.alt {
                    self.command_input.push(ch);
                    self.render_cache.mark_dirty();
                }
            },
            _ => {},
        }
        out
    }

    /// Sidebar mode: moves through the tree, expands and collapses
    /// directories, opens files, and starts creating an entry.
    pub fn handle_key_sidebar(&mut self, k: KeyPress) -> (r: Vec<Action>)
        requires
            old(self).wf(),
        ensures
            final(self).wf(),
            sidebar_post(*old(self), *final(self), k, r@),
    {
        let mut out: Vec<Action> = Vec::new();
        if k.ctrl && k.key == Key::Char('e') {
            self.sidebar_visible = false;
            self.mode = Mode::Normal;
            return out;
        }
        match k.key {
            Key::Esc => {
                self.mode = Mode::Normal;
            },
            Key::Char('j') | Key::Down => self.tree.move_selection(1),
            Key::Char('k') | Key::Up => self.tree.move_selection(-1),
            Key::Char('h') | Key::Left => {
                out.push(Action::CollapseTree);
            },
            Key::Char('l') | Key::Right | Key::Enter => {
                if self.tree.selected < self.tree.nodes.len() {
                    if self.tree.nodes[self.tree.selected].is_dir {
                        self.tree.toggle_selected_dir();
                        out.push(Action::RefreshTree);
                    } else {
                        out.push(Action::Open(self.tree.nodes[self.tree.selected].path.clone(), None));
                        self.mode = Mode::Normal;
                    }
                }
            },
            Key::Char('a') => {
                self.tree.begin_create();
                self.mode = Mode::SidebarCreate;
            },
            _ => {},
        }
        out
    }

    /// Creating an entry in the tree: typed characters build the name;
    /// Enter commits it, Esc abandons it.
    pub fn handle_key_sidebar_create(&mut self, k: KeyPress) -> (r: Vec<Action>)
        requires
            old(self).wf(),
        ensures
            final(self).wf(),
            create_post(*old(self), *final(self), k, r@),
    {
        let mut out: Vec<Action> = Vec::new();
        match k.key {
            Key::Esc => {
                self.tree.create_input = Vec::new();
                self.mode = Mode::Sidebar;
            },
            Key::Backspace => {
                self.tree.create_input.pop();
            },
            Key::Enter => {
                out.push(Action::CommitCreate);
            },
            Key::Char(ch) => {
                self.tree.create_input.push(ch);
            },
            _ => {},
        }
        out
    }

    /// Finder mode: typing edits the query and re-runs the finder; j/k move
    /// the selection; Enter opens the selected hit; leaving clears the query
    /// and results.
    pub fn handle_key_finder(&mut self, k: KeyPress) -> (r: Vec<Action>)
        requires
            old(self).wf(),
        ensures
            final(self).wf(),
            finder_post(*old(self), *final(self), k, r@),
    {
        let mut out: Vec<Action> = Vec::new();
        match k.key {
            Key::Esc => {
                self.mode = Mode::Normal;
                self.finder_query = Vec::new();
                self.finder_results = Vec::new();
                self.finder_selected = 0;
            },
            Key::Enter => {
                if self.finder_selected < self.finder_results.len() {
                    let hit = &self.finder_results[self.finder_selected];
                    out.push(Action::Open(hit.path.clone(), hit.line));
                }
                self.mode = Mode::Normal;
                self.finder_query = Vec::new();
                self.finder_results = Vec::new();
                self.finder_selected = 0;
            },
            Key::Char('j') | Key::Down => {
                if self.finder_results.len() > 0 {
                    self.finder_selected = if self.finder_selected < self.finder_results.len() - 1 {
                        self.finder_selected + 1
                    } else {
                        self.finder_results.len() - 1
                    };
                }
            },
            Key::Char('k') | Key::Up => {
                if self.finder_results.len() > 0 && self.finder_selected > 0 {
                    self.finder_selected = self.finder_selected - 1;
                }
            },
            Key::Backspace => {
                self.finder_query.pop();
                out.push(Action::RefreshTree);
                out.push(Action::RefreshFinder);
            },
            Key::Char(ch) => {
                if !k.ctrl && !k.alt {
                    self.finder_query.push(ch);
                    out.push(Action::RefreshTree);
                    out.push(Action::RefreshFinder);
                }
            },
            _ => {},
        }
        out
    }

    /// Stores finder results, keeping the selection on a result.
    pub fn set_finder_results(&mut self, results: Vec<FinderResult>)
        ensures
            final(self).finder_results@ == results@,
            results@.len() == 0 ==> final(self).finder_selected == 0,
            results@.len() > 0 ==> final(self).finder_selected == if old(self).finder_selected < results@.len() {
                old(self).finder_selected
            } else {
                (results@.len() - 1) as usize
            },
            final(self).tabs == old(self).tabs,
            final(self).mode == old(self).mode,
    {
        self.finder_results = results;
        if self.finder_results.len() == 0 {
            self.finder_selected = 0;
        } else if self.finder_selected >= self.finder_results.len() {
            self.finder_selected = self.finder_results.len() - 1;
        }
    }

    /// Asking to create a linked note: y creates it, n or Esc drops it.
    pub fn handle_key_confirm_create(&mut self, k: KeyPress) -> (r: Vec<Action>)
        requires
            old(self).wf(),
        ensures
            final(self).wf(),
            confirm_post(*old(self), *final(self), k, r@),
    {
        let mut out: Vec<Action> = Vec::new();
        match k.key {
            Key::Char('y') | Key::Char('Y') => {
                if let Some(p) = self.pending_create_path.take() {
                    out.push(Action::CreateNote(p));
                }
                self.mode = Mode::Normal;
            },
            Key::Char('n') | Key::Char('N') | Key::Esc => {
                self.pending_create_path = None;
                self.mode = Mode::Normal;
            },
            _ => {},
        }
        out
    }

    /// The backlinks panel: j/k move the selection, Enter opens the
    /// selected entry at its line, Esc hides the panel.
    pub fn handle_key_backlinks(&mut self, k: KeyPress) -> (r: Vec<Action>)
        requires
            old(self).wf(),
        ensures
            final(self).wf(),
            backlinks_post(*old(self), *final(self), k, r@),
    {
        let mut out: Vec<Action> = Vec::new();
        if k.ctrl && k.key == Key::Char('b') {
            self.toggle_backlinks_panel();
            out.push(Action::RefreshTree);
            if self.backlinks_visible {
                out.push(Action::RefreshBacklinks);
            }
            return out;
        }
        match k.key {
            Key::Esc => {
                self.backlinks_visible = false;
                self.mode = Mode::Normal;
            },
            Key::Char('j') | Key::Down => {
                if self.backlinks.len() > 0 && self.backlinks_selected < self.backlinks.len() - 1 {
                    self.backlinks_selected = self.backlinks_selected + 1;
                }
            },
            Key::Char('k') | Key::Up => {
                if self.backlinks_selected > 0 {
                    self.backlinks_selected = self.backlinks_selected - 1;
                }
            },
            Key::Enter => {
                if self.backlinks_selected < self.backlinks.len() {
                    let e = &self.backlinks[self.backlinks_selected];
                    out.push(Action::Open(e.path.clone(), Some(e.line)));
                }
            },
            _ => {},
        }
        out
    }

    /// Puts the cursor of the active buffer at the start of 1-based line
    /// `line`, clamped to the last line, and scrolls to it.
    pub fn goto_line(&mut self, line: usize)
        requires
            old(self).wf(),
        ensures
            final(self).wf(),
            final(self).tabs.active.text() == old(self).tabs.active.text(),
            final(self).tabs.active.cursor.col == 0,
            final(self).tabs.active.cursor.desired_col == 0,
            final(self).tabs.active.cursor.row == {
                let target = if line >= 1 { line - 1 } else { 0 };
                let last = line_count(old(self).tabs.active.text()) - 1;
                if target <= last { target } else { last }
            },
    {
        let target = if line >= 1 { line - 1 } else { 0 };
        let last = self.tabs.active.line_count() - 1;
        let row = if target <= last { target } else { last };
        self.tabs.active.cursor.row = row;
        self.tabs.active.cursor.col = 0;
        self.tabs.active.cursor.desired_col = 0;
        proof {
            let l = line_of(self.tabs.active.text(), row as int);
            assert(l.take(0) == Seq::<char>::empty());
            assert(crate::buffer::blen(l.take(0)) == 0);
        }
        self.tabs.active.scroll_to_cursor();
        self.render_cache.mark_dirty();
    }
}

/// The status-line text a mode adds; `create_name` is the file name of
/// the note awaiting creation.
pub open spec fn mode_suffix(
    mode: Mode,
    finder_mode: FinderMode,
    create_input: Seq<char>,
    query: Seq<char>,
    command: Seq<char>,
    has_pending_create: bool,
    create_name: Seq<char>,
) -> Seq<char> {
    match mode {
        Mode::SidebarCreate => " | new: "@ + create_input,
        Mode::FinderOpen => (if finder_mode == FinderMode::Files { " | find: "@ } else { " | search: "@ }) + query,
        Mode::Command => " | :"@ + command,
        Mode::ConfirmCreate => if has_pending_create {
            " | create "@ + create_name + "? (y/n)"@
        } else {
            " | create note? (y/n)"@
        },
        _ => Seq::empty(),
    }
}

/// What a command line asks for.
#[derive(Clone, Debug, PartialEq, Eq)]
pub enum CommandKind {
    /// Nothing: the line is blank.
    Blank,
    /// `plugin <command>` or `p <command>`, with the parsed command.
    Plugin(Vec<char>),
    Help,
    /// `plugins` or `pl`.
    Summary,
    /// `plugins.list` or `pl.list`.
    List,
    /// `plugins.errors` or `pl.errors`.
    Errors,
    /// `plugins.reload` or `pl.reload`.
    Reload,
    /// Anything else: a plugin command by that name.
    Other(Vec<char>),
}

/// `s` with prefix `p` removed, if it starts with it.
pub open spec fn strip_prefix(s: Seq<char>, p: Seq<char>) -> Option<Seq<char>> {
    if p.len() <= s.len() && s.subrange(0, p.len() as int) == p {
        Some(s.subrange(p.len() as int, s.len() as int))
    } else {
        None
    }
}

/// The classes of command lines.
#[derive(Clone, Copy, Debug, PartialEq, Eq, Structural)]
pub enum CommandClass {
    Blank,
    Plugin,
    Help,
    Summary,
    List,
    Errors,
    Reload,
    Other,
}

/// The text after `plugin ` or `p ` of a trimmed command line.
pub open spec fn plugin_rest(c: Seq<char>) -> Seq<char> {
    if strip_prefix(c, "plugin "@) is Some {
        strip_prefix(c, "plugin "@)->Some_0
    } else {
        strip_prefix(c, "p "@)->Some_0
    }
}

/// How a command line is understood.
pub open spec fn command_class_of(line: Seq<char>) -> CommandClass {
    let c = trim(line);
    if c.len() == 0 {
        CommandClass::Blank
    } else if strip_prefix(c, "plugin "@) is Some || strip_prefix(c, "p "@) is Some {
        CommandClass::Plugin
    } else if c == "help"@ {
        CommandClass::Help
    } else if c == "plugins"@ || c == "pl"@ {
        CommandClass::Summary
    } else if c == "plugins.list"@ || c == "pl.list"@ {
        CommandClass::List
    } else if c == "plugins.errors"@ || c == "pl.errors"@ {
        CommandClass::Errors
    } else if c == "plugins.reload"@ || c == "pl.reload"@ {
        CommandClass::Reload
    } else {
        CommandClass::Other
    }
}

fn prefix_rest(s: &Vec<char>, p: &str) -> (r: Option<Vec<char>>)
    ensures
        r is Some <==> strip_prefix(s@, p@) is Some,
        r matches Some(v) ==> strip_prefix(s@, p@) == Some(v@),
{
    let pv = chars_of(p);
    if pv.len() > s.len() {
        return None;
    }
    let head = crate::text::slice_of(s, 0, pv.len());
    if vec_eq(&head, &pv) {
        Some(crate::text::slice_of(s, pv.len(), s.len()))
    } else {
        None
    }
}

/// Classifies a command line.
pub fn classify_command(line: &Vec<char>) -> (r: CommandKind)
    ensures
        r is Blank <==> command_class_of(line@) == CommandClass::Blank,
        r is Help <==> command_class_of(line@) == CommandClass::Help,
        r is Summary <==> command_class_of(line@) == CommandClass::Summary,
        r is List <==> command_class_of(line@) == CommandClass::List,
        r is Errors <==> command_class_of(line@) == CommandClass::Errors,
        r is Reload <==> command_class_of(line@) == CommandClass::Reload,
        r is Plugin <==> command_class_of(line@) == CommandClass::Plugin,
        r is Other <==> command_class_of(line@) == CommandClass::Other,
        r matches CommandKind::Plugin(v) ==> v@ == plugin_command_of(plugin_rest(trim(line@))),
        r matches CommandKind::Other(v) ==> v@ == trim(line@),
{
    let c = trimmed(line);
    if c.len() == 0 {
        return CommandKind::Blank;
    }
    let rest = match prefix_rest(&c, "plugin ") {
        Some(r) => Some(r),
        None => prefix_rest(&c, "p "),
    };
    if let Some(r) = rest {
        return CommandKind::Plugin(parse_plugin_command_input(&r));
    }
    if vec_eq(&c, &chars_of("help")) {
        CommandKind::Help
    } else if vec_eq(&c, &chars_of("plugins")) || vec_eq(&c, &chars_of("pl")) {
        CommandKind::Summary
    } else if vec_eq(&c, &chars_of("plugins.list")) || vec_eq(&c, &chars_of("pl.list")) {
        CommandKind::List
    } else if vec_eq(&c, &chars_of("plugins.errors")) || vec_eq(&c, &chars_of("pl.errors")) {
        CommandKind::Errors
    } else if vec_eq(&c, &chars_of("plugins.reload")) || vec_eq(&c, &chars_of("pl.reload")) {
        CommandKind::Reload
    } else {
        CommandKind::Other(c)
    }
}

impl Editor {
    /// Runs a `:` command line, adding its output to the notifications;
    /// returns whether the caller should rediscover the plugins and pass
    /// them to `reload_plugins`.
    pub fn handle_plugin_command(&mut self, line: &Vec<char>) -> (r: bool)
        ensures
            r <==> command_class_of(line@) == CommandClass::Reload,
            final(self).tabs == old(self).tabs,
            final(self).mode == old(self).mode,
            command_class_of(line@) == CommandClass::Blank ==> final(self).notifications@ == old(self).notifications@,
    {
        let notes: Vec<String> = match classify_command(line) {
            CommandKind::Blank => {
                return false;
            },
            CommandKind::Reload => {
                return true;
            },
            CommandKind::Plugin(cmd) => {
                if cmd.len() == 0 {
                    let mut v: Vec<String> = Vec::new();
                    v.push(string_of(&chars_of("usage: plugin <command> (alias: p <command>)")));
                    v
                } else {
                    self.plugins.execute_command(&string_of(&cmd))
                }
            },
            CommandKind::Help => {
                let mut v: Vec<String> = Vec::new();
                v.push(string_of(&chars_of("built-ins:")));
                v.push(string_of(&chars_of("  help")));
                v.push(string_of(&chars_of("  plugin <command> (alias: p <command>)")));
                v.push(string_of(&chars_of("    examples: plugin word_count | plugin \"word count\"")));
                v.push(string_of(&chars_of("  plugins (alias: pl)")));
                v.push(string_of(&chars_of("  plugins.list (alias: pl.list)")));
                v.push(string_of(&chars_of("  plugins.errors (alias: pl.errors)")));
                v.push(string_of(&chars_of("  plugins.reload (alias: pl.reload)")));
                let more = self.plugins.command_notifications();
                let mut i: usize = 0;
                while i < more.len()
                    invariant
                        i <= more@.len(),
                    decreases more.len() - i,
                {
                    v.push(more[i].clone());
                    i = i + 1;
                }
                v
            },
            CommandKind::Summary => {
                let mut v: Vec<String> = Vec::new();
                v.push(self.plugins.summary_notification());
                v
            },
            CommandKind::List => self.plugins.list_notifications(),
            CommandKind::Errors => {
                let errors = self.plugins.error_notifications();
                if errors.len() == 0 {
                    let mut v: Vec<String> = Vec::new();
                    v.push(string_of(&chars_of("plugins: no errors")));
                    v
                } else {
                    errors
                }
            },
            CommandKind::Other(c) => self.plugins.execute_command(&string_of(&c)),
        };
        let mut i: usize = 0;
        while i < notes.len()
            invariant
                i <= notes@.len(),
                self.tabs == old(self).tabs,
                self.mode == old(self).mode,
            decreases notes.len() - i,
        {
            self.push_notification(notes[i].clone());
            i = i + 1;
        }
        false
    }

    /// The status-line text after the cursor position: what the mode is
    /// editing (the new entry's name, the finder query, the command line,
    /// the note to create), then the quit notice while a quit is armed.
    pub fn status_suffix(&self, create_name: &Vec<char>) -> (r: Vec<char>)
        ensures
            r@ == mode_suffix(self.mode, self.finder_mode, self.tree.create_input@, self.finder_query@, self.command_input@,
                self.pending_create_path is Some, create_name@) + if self.quit_armed {
                " | "@ + decimal_of(self.tabs_pending()) + " pending, press q again to save+quit"@
            } else {
                Seq::empty()
            },
    {
        let suffix = match self.mode {
            Mode::SidebarCreate => cat(chars_of(" | new: "), &self.tree.create_input),
            Mode::FinderOpen => {
                let label = if self.finder_mode == FinderMode::Files { chars_of(" | find: ") } else { chars_of(" | search: ") };
                cat(label, &self.finder_query)
            },
            Mode::Command => cat(chars_of(" | :"), &self.command_input),
            Mode::ConfirmCreate => {
                if self.pending_create_path.is_some() {
                    cat(cat(chars_of(" | create "), create_name), &chars_of("? (y/n)"))
                } else {
                    chars_of(" | create note? (y/n)")
                }
            },
            _ => Vec::new(),
        };
        if self.quit_armed {
            let n = self.tabs.pending_write_count();
            cat(suffix, &cat(cat(chars_of(" | "), &decimal(n)), &chars_of(" pending, press q again to save+quit")))
        } else {
            suffix
        }
    }

    /// The pending write count as reported (saturating at `usize::MAX`).
    pub open spec fn tabs_pending(&self) -> nat {
        if pending_total(&self.tabs) <= usize::MAX { pending_total(&self.tabs) } else { usize::MAX as nat }
    }

    /// Handles a message from a plugin: a notification, or a request to redraw.
    pub fn handle_plugin_event(&mut self, action: PluginAction)
        ensures
            final(self).tabs == old(self).tabs,
            final(self).mode == old(self).mode,
            action is RequestRedraw ==> final(self).render_cache.dirty,
            action matches PluginAction::Notify(m) ==> final(self).notifications@.last() == m,
    {
        match action {
            PluginAction::Notify(message) => self.push_notification(message),
            PluginAction::RequestRedraw => self.render_cache.mark_dirty(),
        }
    }

    /// Replaces the plugins after a reload and reports them.
    pub fn reload_plugins(&mut self, plugins: PluginManager)
        ensures
            final(self).tabs == old(self).tabs,
            final(self).mode == old(self).mode,
    {
        self.plugins = plugins;
        self.push_notification(string_of(&chars_of("plugins: reloaded")));
        let summary = self.plugins.summary_notification();
        self.push_notification(summary);
        let errors = self.plugins.error_notifications();
        let mut i: usize = 0;
        while i < errors.len()
            invariant
                i <= errors@.len(),
                self.tabs == old(self).tabs,
                self.mode == old(self).mode,
            decreases errors.len() - i,
        {
            self.push_notification(errors[i].clone());
            i = i + 1;
        }
    }
}

/// The char position within `line` of byte column `col`.
fn fit_index(line: &Vec<char>, col: usize) -> (r: usize)
    ensures
        r == fit(line@, col as int),
{
    let mut k: usize = 0;
    let mut acc: usize = 0;
    assert(line@.take(0) == Seq::<char>::empty());
    while k < line.len() && col - acc >= crate::buffer::char_len(line[k])
        invariant
            k <= line.len(),
            acc <= col,
            acc == crate::buffer::blen(line@.take(k as int)),
            fit(line@, col as int) == crate::buffer::fit_from(line@, col as int, k as int),
        decreases line.len() - k,
    {
        proof {
            crate::buffer::lemma_blen_step(line@, k as int);
        }
        acc = acc + crate::buffer::char_len(line[k]);
        k = k + 1;
    }
    proof {
        if k < line.len() {
            crate::buffer::lemma_blen_step(line@, k as int);
        }
    }
    k
}

} // verus!
