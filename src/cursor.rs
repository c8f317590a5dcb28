//! Cursor position within a buffer.

use vstd::prelude::*;

verus! {

/// A row and byte column.
#[derive(Clone, Copy, Debug, PartialEq, Eq, Structural)]
pub struct Position {
    pub row: usize,
    pub col: usize,
}

/// Cursor position and selection state within a buffer.
#[derive(Clone, Copy, Debug)]
pub struct CursorState {
    /// Current line, counting from 0.
    pub row: usize,
    /// Current column: a byte offset within the line.
    pub col: usize,
    /// Column that vertical movement aims for (the "sticky" column).
    pub desired_col: usize,
    /// Active selection range, if any.
    pub selection: Option<(Position, Position)>,
}

impl CursorState {
    /// The cursor at the start of the text.
    pub fn new() -> (r: CursorState)
        ensures
            r == (CursorState { row: 0, col: 0, desired_col: 0, selection: None }),
    {
        CursorState { row: 0, col: 0, desired_col: 0, selection: None }
    }

    /// The cursor's row and column.
    pub fn position(&self) -> (r: Position)
        ensures
            r == (Position { row: self.row, col: self.col }),
    {
        Position { row: self.row, col: self.col }
    }

    /// Moves to a row and column, which also becomes the sticky column.
    pub fn move_to(&mut self, row: usize, col: usize)
        ensures
            *final(self) == (CursorState { row, col, desired_col: col, selection: old(self).selection }),
    {
        self.row = row;
        self.col = col;
        self.desired_col = col;
    }

    /// Drops the selection.
    pub fn clear_selection(&mut self)
        ensures
            *final(self) == (CursorState { selection: None, ..*old(self) }),
    {
        self.selection = None;
    }
}

} // verus!
