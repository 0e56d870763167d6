use vstd::prelude::*;

verus! {

/// Input mode state machine.
/// Transitions: `i` to Insert, `Esc` to Normal, `:` to Command, `Ctrl+b` to the pane prefix.
#[derive(Debug, Clone, Copy, PartialEq, Eq, Structural)]
pub enum InputMode {
    /// Navigation mode (vim Normal). Keys are commands.
    Normal,
    /// Message composition mode (vim Insert). Keys are text input.
    Insert,
    /// Command line mode (`:` prefix). Keys go to command input.
    Command,
    /// Pane prefix mode (after Ctrl+b). The next key is a pane command.
    PanePrefix,
}

impl Default for InputMode {
    fn default() -> (m: Self)
        ensures
            m == InputMode::Normal,
    {
        InputMode::Normal
    }
}

/// The status-bar name of a mode.
pub open spec fn mode_name(m: InputMode) -> Seq<char> {
    match m {
        InputMode::Normal => "NORMAL"@,
        InputMode::Insert => "INSERT"@,
        InputMode::Command => "COMMAND"@,
        InputMode::PanePrefix => "PANE"@,
    }
}

impl InputMode {
    /// Display name for the status bar.
    pub fn display_name(&self) -> (r: &'static str)
        ensures
            r@ == mode_name(*self),
    {
        match self {
            InputMode::Normal => "NORMAL",
            InputMode::Insert => "INSERT",
            InputMode::Command => "COMMAND",
            InputMode::PanePrefix => "PANE",
        }
    }
}

} // verus!
