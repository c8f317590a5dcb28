//! Interaction modes.

use vstd::prelude::*;

verus! {

/// Application interaction modes.
#[derive(Clone, Copy, Debug, PartialEq, Eq, Structural)]
pub enum Mode {
    /// Navigation and commands.
    Normal,
    /// Text editing.
    Insert,
    /// File tree navigation.
    Sidebar,
    /// Inline file or folder creation in the file tree.
    SidebarCreate,
    /// The `:` command line.
    Command,
    /// The finder overlay.
    FinderOpen,
    /// Asking whether to create the note a wikilink names.
    ConfirmCreate,
    /// The backlinks panel has focus.
    Backlinks,
}

/// The status-bar label of a mode.
pub open spec fn label_of(m: Mode) -> Seq<char> {
    match m {
        Mode::Normal => "NORMAL"@,
        Mode::Insert => "INSERT"@,
        Mode::Sidebar => "SIDEBAR"@,
        Mode::SidebarCreate => "CREATE"@,
        Mode::Command => "COMMAND"@,
        Mode::FinderOpen => "FINDER"@,
        Mode::ConfirmCreate => "CONFIRM"@,
        Mode::Backlinks => "BACKLINKS"@,
    }
}

impl Mode {
    /// The mode's status-bar label.
    pub fn label(&self) -> (r: &'static str)
        ensures
            r@ == label_of(*self),
    {
        match self {
            Mode::Normal => "NORMAL",
            Mode::Insert => "INSERT",
            Mode::Sidebar => "SIDEBAR",
            Mode::SidebarCreate => "CREATE",
            Mode::Command => "COMMAND",
            Mode::FinderOpen => "FINDER",
            Mode::ConfirmCreate => "CONFIRM",
            Mode::Backlinks => "BACKLINKS",
        }
    }
}

} // verus!
