//! The application-level modes and commands that key sequences resolve to.

use vstd::prelude::*;

verus! {

/// Current mode of the application. This is primarily based around Vim's
/// modes.
#[derive(Debug, Default, Copy, Clone, PartialEq, Eq, Structural)]
pub enum Mode {
    #[default]
    Normal,
    Command,
    Insert,
}

/// A direction that things can move in.
#[derive(Debug, Clone, Copy, PartialEq, Eq, Structural)]
pub enum MovementDirection {
    Up,
    Down,
    Left,
    Right,
}

/// A direction that things can be split in.
#[derive(Debug, Clone, Copy, PartialEq, Eq, Structural)]
pub enum SplitDirection {
    Horizontal,
    Vertical,
}

/// Commands that the application recognizes. Commands are not necessarily
/// guaranteed to succeed. Errors will not be communicated back to the sender
/// of the command.
#[derive(Debug, Copy, Clone, PartialEq, Eq, Structural)]
pub enum Command {
    /// Attempt to exit immediately.
    Quit,
    /// Redraw the screen, no other operations are necessary.
    Redraw,
    /// Update the application's mode to be the mode provided.
    UpdateMode(Mode),
    /// Move the focused view in the specified direction.
    MoveFocus(MovementDirection),
    /// Move the cursor in the specified direction.
    MoveCursor(MovementDirection),
    /// Split the currently focused view into two using the given direction.
    /// The newly created view should be focused.
    SplitView(SplitDirection),
}

} // verus!
