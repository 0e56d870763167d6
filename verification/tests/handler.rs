use discordinator::handler::{handle_key_event, KeyCode, KeyEvent, KeyModifiers};
use discordinator::mode::InputMode;
use discordinator::types::{Action, Direction, SplitDirection};

fn key(code: KeyCode) -> KeyEvent {
    KeyEvent::new(code, KeyModifiers::none())
}

fn ctrl_key(c: char) -> KeyEvent {
    KeyEvent::new(KeyCode::Char(c), KeyModifiers::control())
}

fn ctrl_arrow(code: KeyCode) -> KeyEvent {
    KeyEvent::new(code, KeyModifiers::control())
}

#[test]
fn normal_i_enters_insert_mode() {
    let (action, mode) = handle_key_event(key(KeyCode::Char('i')), InputMode::Normal);
    assert_eq!(action, Some(Action::EnterInsertMode));
    assert_eq!(mode, InputMode::Insert);
}

#[test]
fn normal_colon_enters_command_mode() {
    let (action, mode) = handle_key_event(key(KeyCode::Char(':')), InputMode::Normal);
    assert_eq!(action, Some(Action::EnterCommandMode));
    assert_eq!(mode, InputMode::Command);
}

#[test]
fn normal_ctrl_b_enters_pane_prefix() {
    let (action, mode) = handle_key_event(ctrl_key('b'), InputMode::Normal);
    assert_eq!(action, None);
    assert_eq!(mode, InputMode::PanePrefix);
}

#[test]
fn normal_ctrl_q_quits() {
    let (action, mode) = handle_key_event(ctrl_key('q'), InputMode::Normal);
    assert_eq!(action, Some(Action::Quit));
    assert_eq!(mode, InputMode::Normal);
}

#[test]
fn normal_j_scrolls_down() {
    let (action, mode) = handle_key_event(key(KeyCode::Char('j')), InputMode::Normal);
    assert_eq!(action, Some(Action::ScrollDown(1)));
    assert_eq!(mode, InputMode::Normal);
}

#[test]
fn normal_k_scrolls_up() {
    let (action, mode) = handle_key_event(key(KeyCode::Char('k')), InputMode::Normal);
    assert_eq!(action, Some(Action::ScrollUp(1)));
    assert_eq!(mode, InputMode::Normal);
}

#[test]
fn normal_g_scrolls_to_top() {
    let (action, _) = handle_key_event(key(KeyCode::Char('g')), InputMode::Normal);
    assert_eq!(action, Some(Action::ScrollToTop));
}

#[test]
fn normal_shift_g_scrolls_to_bottom() {
    let (action, _) = handle_key_event(key(KeyCode::Char('G')), InputMode::Normal);
    assert_eq!(action, Some(Action::ScrollToBottom));
}

#[test]
fn normal_ctrl_u_half_page_up() {
    let (action, _) = handle_key_event(ctrl_key('u'), InputMode::Normal);
    assert_eq!(action, Some(Action::ScrollUp(10)));
}

#[test]
fn normal_ctrl_d_half_page_down() {
    let (action, _) = handle_key_event(ctrl_key('d'), InputMode::Normal);
    assert_eq!(action, Some(Action::ScrollDown(10)));
}

#[test]
fn normal_arrow_keys_scroll() {
    let (action, _) = handle_key_event(key(KeyCode::Down), InputMode::Normal);
    assert_eq!(action, Some(Action::ScrollDown(1)));
    let (action, _) = handle_key_event(key(KeyCode::Up), InputMode::Normal);
    assert_eq!(action, Some(Action::ScrollUp(1)));
}

#[test]
fn insert_esc_returns_to_normal() {
    let (action, mode) = handle_key_event(key(KeyCode::Esc), InputMode::Insert);
    assert_eq!(action, Some(Action::EnterNormalMode));
    assert_eq!(mode, InputMode::Normal);
}

#[test]
fn insert_typing_stays_in_insert() {
    let (_, mode) = handle_key_event(key(KeyCode::Char('a')), InputMode::Insert);
    assert_eq!(mode, InputMode::Insert);
}

#[test]
fn command_esc_returns_to_normal() {
    let (action, mode) = handle_key_event(key(KeyCode::Esc), InputMode::Command);
    assert_eq!(action, Some(Action::EnterNormalMode));
    assert_eq!(mode, InputMode::Normal);
}

#[test]
fn pane_prefix_double_quote_splits_horizontal() {
    let (action, mode) = handle_key_event(key(KeyCode::Char('"')), InputMode::PanePrefix);
    assert_eq!(action, Some(Action::SplitPane(SplitDirection::Horizontal)));
    assert_eq!(mode, InputMode::Normal);
}

#[test]
fn pane_prefix_percent_splits_vertical() {
    let (action, mode) = handle_key_event(key(KeyCode::Char('%')), InputMode::PanePrefix);
    assert_eq!(action, Some(Action::SplitPane(SplitDirection::Vertical)));
    assert_eq!(mode, InputMode::Normal);
}

#[test]
fn pane_prefix_x_closes_pane() {
    let (action, mode) = handle_key_event(key(KeyCode::Char('x')), InputMode::PanePrefix);
    assert_eq!(action, Some(Action::ClosePane));
    assert_eq!(mode, InputMode::Normal);
}

#[test]
fn pane_prefix_o_cycles_focus() {
    let (action, _) = handle_key_event(key(KeyCode::Char('o')), InputMode::PanePrefix);
    assert_eq!(action, Some(Action::FocusNextPane));
}

#[test]
fn pane_prefix_z_toggles_zoom() {
    let (action, _) = handle_key_event(key(KeyCode::Char('z')), InputMode::PanePrefix);
    assert_eq!(action, Some(Action::ToggleZoom));
}

#[test]
fn pane_prefix_s_focuses_sidebar() {
    let (action, _) = handle_key_event(key(KeyCode::Char('s')), InputMode::PanePrefix);
    assert_eq!(action, Some(Action::FocusSidebar));
}

#[test]
fn pane_prefix_arrows_focus_direction() {
    let (action, _) = handle_key_event(key(KeyCode::Up), InputMode::PanePrefix);
    assert_eq!(action, Some(Action::FocusPaneDirection(Direction::Up)));
    let (action, _) = handle_key_event(key(KeyCode::Down), InputMode::PanePrefix);
    assert_eq!(action, Some(Action::FocusPaneDirection(Direction::Down)));
    let (action, _) = handle_key_event(key(KeyCode::Left), InputMode::PanePrefix);
    assert_eq!(action, Some(Action::FocusPaneDirection(Direction::Left)));
    let (action, _) = handle_key_event(key(KeyCode::Right), InputMode::PanePrefix);
    assert_eq!(action, Some(Action::FocusPaneDirection(Direction::Right)));
}

#[test]
fn pane_prefix_esc_cancels() {
    let (action, mode) = handle_key_event(key(KeyCode::Esc), InputMode::PanePrefix);
    assert_eq!(action, None);
    assert_eq!(mode, InputMode::Normal);
}

#[test]
fn pane_prefix_always_returns_to_normal() {
    let (_, mode) = handle_key_event(key(KeyCode::Char('?')), InputMode::PanePrefix);
    assert_eq!(mode, InputMode::Normal);
}

#[test]
fn pane_prefix_ctrl_arrows_resize() {
    for (code, dir) in [
        (KeyCode::Up, Direction::Up),
        (KeyCode::Down, Direction::Down),
        (KeyCode::Left, Direction::Left),
        (KeyCode::Right, Direction::Right),
    ] {
        let (action, mode) = handle_key_event(ctrl_arrow(code), InputMode::PanePrefix);
        assert_eq!(action, Some(Action::ResizePane(dir, 1)));
        assert_eq!(mode, InputMode::Normal);
    }
}

#[test]
fn pane_prefix_plain_arrow_still_focuses() {
    let (action, _) = handle_key_event(key(KeyCode::Up), InputMode::PanePrefix);
    assert_eq!(action, Some(Action::FocusPaneDirection(Direction::Up)));
}

fn all_keys() -> Vec<KeyCode> {
    let mut keys: Vec<KeyCode> = ('a'..='z').chain('A'..='Z').chain('0'..='9').map(KeyCode::Char).collect();
    keys.extend([
        KeyCode::Enter,
        KeyCode::Tab,
        KeyCode::Backspace,
        KeyCode::Up,
        KeyCode::Down,
        KeyCode::Left,
        KeyCode::Right,
        KeyCode::Home,
        KeyCode::End,
        KeyCode::Esc,
        KeyCode::Other,
    ]);
    keys
}

#[test]
fn pane_prefix_always_returns_normal_for_every_key() {
    for code in all_keys() {
        for m in [KeyModifiers::none(), KeyModifiers::control()] {
            let (_, mode) = handle_key_event(KeyEvent::new(code, m), InputMode::PanePrefix);
            assert_eq!(mode, InputMode::Normal, "{code:?}");
        }
    }
}

#[test]
fn insert_non_esc_stays_insert() {
    for code in all_keys() {
        if code == KeyCode::Esc {
            continue;
        }
        let (action, mode) = handle_key_event(key(code), InputMode::Insert);
        assert_eq!(mode, InputMode::Insert, "{code:?}");
        assert_eq!(action, None);
    }
}

#[test]
fn esc_returns_to_normal_from_every_mode() {
    for mode in [InputMode::Normal, InputMode::Insert, InputMode::Command, InputMode::PanePrefix] {
        for mods in [KeyModifiers::none(), KeyModifiers::control()] {
            let (_, next) = handle_key_event(KeyEvent::new(KeyCode::Esc, mods), mode);
            assert_eq!(next, InputMode::Normal);
        }
    }
}

#[test]
fn normal_message_keys() {
    let cases = [
        ('J', Action::SelectMessageDown),
        ('K', Action::SelectMessageUp),
        ('r', Action::StartReply),
        ('e', Action::StartEdit),
        ('d', Action::StartDelete),
        ('y', Action::ConfirmDelete),
    ];
    for (c, action) in cases {
        let (a, mode) = handle_key_event(key(KeyCode::Char(c)), InputMode::Normal);
        assert_eq!(a, Some(action));
        assert_eq!(mode, InputMode::Normal);
    }
}
