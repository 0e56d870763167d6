use vstd::prelude::*;
use crate::mode::InputMode;
use crate::types::{Action, Direction, SplitDirection};

verus! {

/// A key of the keyboard, as the terminal reports it.
#[derive(Debug, Clone, Copy, PartialEq, Eq, Structural)]
pub enum KeyCode {
    Char(char),
    Esc,
    Enter,
    Backspace,
    Tab,
    Left,
    Right,
    Up,
    Down,
    Home,
    End,
    /// Any other key.
    Other,
}

/// Modifier keys held with a key.
#[derive(Debug, Clone, Copy, PartialEq, Eq, Structural)]
pub struct KeyModifiers {
    pub control: bool,
    pub shift: bool,
    pub alt: bool,
}

impl KeyModifiers {
    /// No modifier.
    pub fn none() -> (m: KeyModifiers)
        ensures
            !m.control && !m.shift && !m.alt,
    {
        KeyModifiers { control: false, shift: false, alt: false }
    }

    /// Control alone.
    pub fn control() -> (m: KeyModifiers)
        ensures
            m.control && !m.shift && !m.alt,
    {
        KeyModifiers { control: true, shift: false, alt: false }
    }
}

/// A key press.
#[derive(Debug, Clone, Copy, PartialEq, Eq, Structural)]
pub struct KeyEvent {
    pub code: KeyCode,
    pub modifiers: KeyModifiers,
}

impl KeyEvent {
    /// A key press with the given modifiers.
    pub fn new(code: KeyCode, modifiers: KeyModifiers) -> (k: KeyEvent)
        ensures
            k.code == code && k.modifiers == modifiers,
    {
        KeyEvent { code, modifiers }
    }
}

/// What a key does in Normal mode: Ctrl+q quits, Ctrl+b opens the pane prefix, Ctrl+u and
/// Ctrl+d scroll by ten; `i` and `:` change mode; `j`/Down and `k`/Up scroll by one; `g` and `G`
/// jump to the top and the bottom; `J` and `K` select the message below and above; `r`, `e` and
/// `d` reply to, edit and delete the selected message, `y` confirms a deletion and Esc
/// cancels it.
pub open spec fn normal_mode_result(key: KeyEvent) -> (Option<Action>, InputMode) {
    if key.modifiers.control {
        match key.code {
            KeyCode::Char('q') => (Some(Action::Quit), InputMode::Normal),
            KeyCode::Char('b') => (None, InputMode::PanePrefix),
            KeyCode::Char('u') => (Some(Action::ScrollUp(10)), InputMode::Normal),
            KeyCode::Char('d') => (Some(Action::ScrollDown(10)), InputMode::Normal),
            _ => (None, InputMode::Normal),
        }
    } else {
        match key.code {
            KeyCode::Char('i') => (Some(Action::EnterInsertMode), InputMode::Insert),
            KeyCode::Char(':') => (Some(Action::EnterCommandMode), InputMode::Command),
            KeyCode::Char('j') | KeyCode::Down => (Some(Action::ScrollDown(1)), InputMode::Normal),
            KeyCode::Char('k') | KeyCode::Up => (Some(Action::ScrollUp(1)), InputMode::Normal),
            KeyCode::Char('g') => (Some(Action::ScrollToTop), InputMode::Normal),
            KeyCode::Char('G') => (Some(Action::ScrollToBottom), InputMode::Normal),
            KeyCode::Char('J') => (Some(Action::SelectMessageDown), InputMode::Normal),
            KeyCode::Char('K') => (Some(Action::SelectMessageUp), InputMode::Normal),
            KeyCode::Char('r') => (Some(Action::StartReply), InputMode::Normal),
            KeyCode::Char('e') => (Some(Action::StartEdit), InputMode::Normal),
            KeyCode::Char('d') => (Some(Action::StartDelete), InputMode::Normal),
            KeyCode::Char('y') => (Some(Action::ConfirmDelete), InputMode::Normal),
            _ => (None, InputMode::Normal),
        }
    }
}

/// What a key does after the pane prefix: splits, close, focus cycling, zoom, sidebar focus;
/// Ctrl+arrows resize, plain arrows move the focus; anything else does nothing.
pub open spec fn pane_prefix_action(key: KeyEvent) -> Option<Action> {
    match key.code {
        KeyCode::Char('"') => Some(Action::SplitPane(SplitDirection::Horizontal)),
        KeyCode::Char('%') => Some(Action::SplitPane(SplitDirection::Vertical)),
        KeyCode::Char('x') => Some(Action::ClosePane),
        KeyCode::Char('o') => Some(Action::FocusNextPane),
        KeyCode::Char('z') => Some(Action::ToggleZoom),
        KeyCode::Char('s') => Some(Action::FocusSidebar),
        KeyCode::Up => Some(
            if key.modifiers.control {
                Action::ResizePane(Direction::Up, 1)
            } else {
                Action::FocusPaneDirection(Direction::Up)
            },
        ),
        KeyCode::Down => Some(
            if key.modifiers.control {
                Action::ResizePane(Direction::Down, 1)
            } else {
                Action::FocusPaneDirection(Direction::Down)
            },
        ),
        KeyCode::Left => Some(
            if key.modifiers.control {
                Action::ResizePane(Direction::Left, 1)
            } else {
                Action::FocusPaneDirection(Direction::Left)
            },
        ),
        KeyCode::Right => Some(
            if key.modifiers.control {
                Action::ResizePane(Direction::Right, 1)
            } else {
                Action::FocusPaneDirection(Direction::Right)
            },
        ),
        _ => None,
    }
}

/// What a key does in a mode: the action, if any, and the next mode.
pub open spec fn key_result(key: KeyEvent, mode: InputMode) -> (Option<Action>, InputMode) {
    match mode {
        InputMode::Normal => normal_mode_result(key),
        InputMode::Insert => if key.code == KeyCode::Esc {
            (Some(Action::EnterNormalMode), InputMode::Normal)
        } else {
            (None, InputMode::Insert)
        },
        InputMode::Command => if key.code == KeyCode::Esc {
            (Some(Action::EnterNormalMode), InputMode::Normal)
        } else {
            (None, InputMode::Command)
        },
        InputMode::PanePrefix => (pane_prefix_action(key), InputMode::Normal),
    }
}

fn handle_normal_mode(key: KeyEvent) -> (r: (Option<Action>, InputMode))
    ensures
        r == normal_mode_result(key),
{
    if key.modifiers.control {
        return match key.code {
            KeyCode::Char('q') => (Some(Action::Quit), InputMode::Normal),
            KeyCode::Char('b') => (None, InputMode::PanePrefix),
            KeyCode::Char('u') => (Some(Action::ScrollUp(10)), InputMode::Normal),
            KeyCode::Char('d') => (Some(Action::ScrollDown(10)), InputMode::Normal),
            _ => (None, InputMode::Normal),
        };
    }
    match key.code {
        KeyCode::Char('i') => (Some(Action::EnterInsertMode), InputMode::Insert),
        KeyCode::Char(':') => (Some(Action::EnterCommandMode), InputMode::Command),
        KeyCode::Char('j') | KeyCode::Down => (Some(Action::ScrollDown(1)), InputMode::Normal),
        KeyCode::Char('k') | KeyCode::Up => (Some(Action::ScrollUp(1)), InputMode::Normal),
        KeyCode::Char('g') => (Some(Action::ScrollToTop), InputMode::Normal),
        KeyCode::Char('G') => (Some(Action::ScrollToBottom), InputMode::Normal),
        KeyCode::Char('J') => (Some(Action::SelectMessageDown), InputMode::Normal),
        KeyCode::Char('K') => (Some(Action::SelectMessageUp), InputMode::Normal),
        KeyCode::Char('r') => (Some(Action::StartReply), InputMode::Normal),
        KeyCode::Char('e') => (Some(Action::StartEdit), InputMode::Normal),
        KeyCode::Char('d') => (Some(Action::StartDelete), InputMode::Normal),
        KeyCode::Char('y') => (Some(Action::ConfirmDelete), InputMode::Normal),
        _ => (None, InputMode::Normal),
    }
}

fn handle_insert_mode(key: KeyEvent) -> (r: (Option<Action>, InputMode))
    ensures
        r == key_result(key, InputMode::Insert),
{
    match key.code {
        KeyCode::Esc => (Some(Action::EnterNormalMode), InputMode::Normal),
        // Typing and sending are handled by the input box, not here.
        _ => (None, InputMode::Insert),
    }
}

fn handle_command_mode(key: KeyEvent) -> (r: (Option<Action>, InputMode))
    ensures
        r == key_result(key, InputMode::Command),
{
    match key.code {
        KeyCode::Esc => (Some(Action::EnterNormalMode), InputMode::Normal),
        _ => (None, InputMode::Command),
    }
}

fn handle_pane_prefix_mode(key: KeyEvent) -> (r: (Option<Action>, InputMode))
    ensures
        r == key_result(key, InputMode::PanePrefix),
{
    let has_ctrl = key.modifiers.control;
    let action = match key.code {
        KeyCode::Char('"') => Some(Action::SplitPane(SplitDirection::Horizontal)),
        KeyCode::Char('%') => Some(Action::SplitPane(SplitDirection::Vertical)),
        KeyCode::Char('x') => Some(Action::ClosePane),
        KeyCode::Char('o') => Some(Action::FocusNextPane),
        KeyCode::Char('z') => Some(Action::ToggleZoom),
        KeyCode::Char('s') => Some(Action::FocusSidebar),
        KeyCode::Up => Some(
            if has_ctrl {
                Action::ResizePane(Direction::Up, 1)
            } else {
                Action::FocusPaneDirection(Direction::Up)
            },
        ),
        KeyCode::Down => Some(
            if has_ctrl {
                Action::ResizePane(Direction::Down, 1)
            } else {
                Action::FocusPaneDirection(Direction::Down)
            },
        ),
        KeyCode::Left => Some(
            if has_ctrl {
                Action::ResizePane(Direction::Left, 1)
            } else {
                Action::FocusPaneDirection(Direction::Left)
            },
        ),
        KeyCode::Right => Some(
            if has_ctrl {
                Action::ResizePane(Direction::Right, 1)
            } else {
                Action::FocusPaneDirection(Direction::Right)
            },
        ),
        // Esc or any other key cancels.
        _ => None,
    };
    // The pane prefix always returns to Normal after one key.
    (action, InputMode::Normal)
}

/// Processes a key in the current input mode: the action, if any, and the next mode. The pane
/// prefix always returns to Normal after one key, Esc returns to Normal from every mode, and in
/// Insert mode every key but Esc keeps the mode.
pub fn handle_key_event(key: KeyEvent, mode: InputMode) -> (r: (Option<Action>, InputMode))
    ensures
        r == key_result(key, mode),
        mode == InputMode::PanePrefix ==> r.1 == InputMode::Normal,
        key.code == KeyCode::Esc ==> r.1 == InputMode::Normal,
        mode == InputMode::Insert && key.code != KeyCode::Esc ==> r == (
            None::<Action>,
            InputMode::Insert,
        ),
{
    match mode {
        InputMode::Normal => handle_normal_mode(key),
        InputMode::Insert => handle_insert_mode(key),
        InputMode::Command => handle_command_mode(key),
        InputMode::PanePrefix => handle_pane_prefix_mode(key),
    }
}

} // verus!
