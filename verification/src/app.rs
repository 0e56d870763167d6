use std::collections::HashSet;
use vstd::prelude::*;
use crate::cache::{channel_messages, DiscordCache};
use crate::config::AppConfig;
use crate::handler::{handle_key_event, key_result, KeyCode, KeyEvent};
use crate::input_box::{
    at_cursor, deleted_before, delete_char_before_cursor, insert_char, inserted, move_cursor_end,
    move_cursor_home, move_cursor_left, move_cursor_right, moved_left, moved_right,
};
use crate::mode::InputMode;
use crate::text::{chars_of, string_from_chars};
use crate::http::{generate_nonce, snowflake};
use crate::text::decimal;
use crate::types::{
    Action, CachedMessage, ConnectionState, DbRequest, HttpRequest, InputState, InputView, PaneId,
    ScrollState,
};

verus! {

broadcast use vstd::std_specs::hash::group_hash_axioms;

/// State of the sidebar.
#[derive(Debug)]
pub struct SidebarState {
    /// Index of the selected item in the flattened tree.
    pub selected_index: usize,
    /// Scroll offset of the sidebar list.
    pub scroll_offset: usize,
    /// Guilds whose channels are collapsed.
    pub collapsed_guilds: HashSet<u64>,
}

impl Default for SidebarState {
    fn default() -> (s: Self)
        ensures
            s.selected_index == 0,
            s.scroll_offset == 0,
            s.collapsed_guilds@ == Set::<u64>::empty(),
    {
        SidebarState { selected_index: 0, scroll_offset: 0, collapsed_guilds: HashSet::new() }
    }
}

/// State of one pane (a leaf of the pane tree).
#[derive(Debug, Clone)]
pub struct PaneState {
    pub id: PaneId,
    pub channel_id: Option<u64>,
    pub guild_id: Option<u64>,
    pub scroll: ScrollState,
    pub input: InputState,
    /// Index of the selected message in the channel's window, for reply, edit or delete.
    pub selected_message: Option<usize>,
    /// The message whose deletion waits for confirmation.
    pub confirming_delete: Option<u64>,
}

impl PaneState {
    /// A pane that shows no channel, follows the newest message and has an empty input box.
    pub fn new(id: PaneId) -> (p: Self)
        ensures
            p.id == id,
            p.channel_id is None,
            p.guild_id is None,
            p.scroll == ScrollState::Following,
            p.input@ == InputView::empty(),
            p.selected_message is None,
            p.confirming_delete is None,
    {
        PaneState {
            id,
            channel_id: None,
            guild_id: None,
            scroll: ScrollState::Following,
            input: InputState::empty(),
            selected_message: None,
            confirming_delete: None,
        }
    }
}

/// Top-level application state, owned by the main loop.
#[derive(Debug)]
pub struct AppState {
    pub cache: DiscordCache,
    pub connection: ConnectionState,
    pub current_user_id: Option<u64>,
    pub panes: Vec<PaneState>,
    pub focused_pane: usize,
    pub sidebar: SidebarState,
    pub sidebar_visible: bool,
    pub input_mode: InputMode,
    pub config: AppConfig,
    pub status_message: Option<String>,
    pub status_error: Option<String>,
}

/// Scrolling up by `n`: from the bottom into manual scrolling at `n`, or further up (saturating).
pub open spec fn scroll_up(s: ScrollState, n: usize) -> ScrollState {
    match s {
        ScrollState::Following => ScrollState::Manual { offset: n },
        ScrollState::Manual { offset } => ScrollState::Manual {
            offset: if offset + n > usize::MAX {
                usize::MAX
            } else {
                (offset + n) as usize
            },
        },
    }
}

/// Scrolling down by `n`: back to following once the offset reaches zero; nothing when
/// already following.
pub open spec fn scroll_down(s: ScrollState, n: usize) -> ScrollState {
    match s {
        ScrollState::Following => ScrollState::Following,
        ScrollState::Manual { offset } => if offset <= n {
            ScrollState::Following
        } else {
            ScrollState::Manual { offset: (offset - n) as usize }
        },
    }
}

impl AppState {
    /// The focused pane exists.
    pub open spec fn wf(&self) -> bool {
        self.focused_pane < self.panes@.len()
    }

    /// The state at start: one empty pane, focused, in Normal mode, disconnected, with the
    /// sidebar shown as configured.
    pub fn new(config: AppConfig) -> (s: Self)
        ensures
            s.wf(),
            s.panes@.len() == 1,
            s.panes@[0].id == PaneId(0),
            s.panes@[0].channel_id is None,
            s.panes@[0].scroll == ScrollState::Following,
            s.focused_pane == 0,
            s.input_mode == InputMode::Normal,
            s.connection == ConnectionState::Disconnected,
            s.cache.is_empty(),
            s.current_user_id is None,
            s.sidebar_visible == config.appearance.show_sidebar,
            s.sidebar.selected_index == 0,
            s.status_message is None,
            s.status_error is None,
    {
        let sidebar_visible = config.appearance.show_sidebar;
        let mut panes: Vec<PaneState> = Vec::new();
        panes.push(PaneState::new(PaneId(0)));
        AppState {
            cache: DiscordCache::new(),
            connection: ConnectionState::Disconnected,
            current_user_id: None,
            panes,
            focused_pane: 0,
            sidebar: SidebarState::default(),
            sidebar_visible,
            input_mode: InputMode::Normal,
            config,
            status_message: None,
            status_error: None,
        }
    }

    /// The focused pane.
    pub fn focused_pane(&self) -> (p: &PaneState)
        requires
            self.wf(),
        ensures
            *p == self.panes@[self.focused_pane as int],
    {
        &self.panes[self.focused_pane]
    }

    /// The focused pane, for changing it.
    pub fn focused_pane_mut(&mut self) -> (p: &mut PaneState)
        requires
            old(self).wf(),
        ensures
            *p == old(self).panes@[old(self).focused_pane as int],
            final(self).panes@ == old(self).panes@.update(
                old(self).focused_pane as int,
                *final(p),
            ),
            final(self).cache == old(self).cache,
            final(self).connection == old(self).connection,
            final(self).current_user_id == old(self).current_user_id,
            final(self).focused_pane == old(self).focused_pane,
            final(self).sidebar == old(self).sidebar,
            final(self).sidebar_visible == old(self).sidebar_visible,
            final(self).input_mode == old(self).input_mode,
            final(self).config == old(self).config,
            final(self).status_message == old(self).status_message,
            final(self).status_error == old(self).status_error,
    {
        vstd::std_specs::vec::vec_index_mut(&mut self.panes, self.focused_pane)
    }
}

/// `n` is `o` with only the input mode changed.
pub open spec fn only_mode_changed(o: AppState, n: AppState) -> bool {
    AppState { input_mode: o.input_mode, ..n } == o
}

/// `n` is `o` with only the focused pane changed, to `p`.
pub open spec fn only_focused_pane_changed(o: AppState, n: AppState, p: PaneState) -> bool {
    &&& n.panes@ == o.panes@.update(o.focused_pane as int, p)
    &&& n.cache == o.cache
    &&& n.connection == o.connection
    &&& n.current_user_id == o.current_user_id
    &&& n.focused_pane == o.focused_pane
    &&& n.sidebar == o.sidebar
    &&& n.sidebar_visible == o.sidebar_visible
    &&& n.input_mode == o.input_mode
    &&& n.config == o.config
    &&& n.status_message == o.status_message
    &&& n.status_error == o.status_error
}

/// `n` is `o` with the focused pane's scroll state changed to `s`.
pub open spec fn scrolled(o: AppState, n: AppState, s: ScrollState) -> bool {
    let p = o.panes@[o.focused_pane as int];
    only_focused_pane_changed(o, n, PaneState { scroll: s, ..p })
}

/// The messages of the focused pane's channel, oldest first.
pub open spec fn focused_messages(o: AppState) -> Seq<CachedMessage> {
    match o.panes@[o.focused_pane as int].channel_id {
        Some(c) => channel_messages(o.cache.messages@, c),
        None => Seq::empty(),
    }
}

/// The focused pane's selected message, when the selection points at one.
pub open spec fn selected_of(o: AppState) -> Option<CachedMessage> {
    let ms = focused_messages(o);
    match o.panes@[o.focused_pane as int].selected_message {
        Some(i) => if i < ms.len() {
            Some(ms[i as int])
        } else {
            None
        },
        None => None,
    }
}

/// Whether the current user wrote `m`.
pub open spec fn own_message(o: AppState, m: CachedMessage) -> bool {
    o.current_user_id == Some(m.author_id)
}

/// Selecting the message above: from no selection, the newest message; otherwise the one
/// before (staying on the oldest).
pub open spec fn select_up(sel: Option<usize>, len: nat) -> Option<usize> {
    match sel {
        None => if len > 0 {
            Some((len - 1) as usize)
        } else {
            None
        },
        Some(i) => Some(
            if i > 0 {
                (i - 1) as usize
            } else {
                0
            },
        ),
    }
}

/// Selecting the message below: the next one, or no selection past the newest.
pub open spec fn select_down(sel: Option<usize>, len: nat) -> Option<usize> {
    match sel {
        None => None,
        Some(i) => if i + 1 < len {
            Some((i + 1) as usize)
        } else {
            None
        },
    }
}

/// `n` is `o` in Insert mode with the focused pane's input box changed to one whose model is
/// `v`, and nothing else changed.
pub open spec fn composing(o: AppState, n: AppState, v: InputView) -> bool {
    let f = o.focused_pane as int;
    let mid = AppState { input_mode: InputMode::Insert, ..o };
    &&& only_focused_pane_changed(mid, n, PaneState { input: n.panes@[f].input, ..o.panes@[f] })
    &&& n.panes@[f].input@ == v
}

/// What applying an action does to the state.
pub open spec fn applied(o: AppState, n: AppState, a: Action) -> bool {
    let f = o.focused_pane as int;
    let p = o.panes@[f];
    match a {
        Action::EnterInsertMode => only_mode_changed(o, n) && n.input_mode == InputMode::Insert,
        Action::EnterNormalMode => only_mode_changed(o, n) && n.input_mode == InputMode::Normal,
        Action::EnterCommandMode => only_mode_changed(o, n) && n.input_mode == InputMode::Command,
        Action::EnterPanePrefix => only_mode_changed(o, n) && n.input_mode
            == InputMode::PanePrefix,
        Action::SwitchChannel(c) => only_focused_pane_changed(
            o,
            n,
            PaneState {
                channel_id: Some(c),
                guild_id: if o.cache.channel_guild@.contains_key(c) {
                    Some(o.cache.channel_guild@[c])
                } else {
                    None
                },
                scroll: ScrollState::Following,
                selected_message: None,
                confirming_delete: None,
                ..p
            },
        ),
        Action::SelectMessageUp => only_focused_pane_changed(
            o,
            n,
            PaneState {
                selected_message: select_up(p.selected_message, focused_messages(o).len()),
                ..p
            },
        ),
        Action::SelectMessageDown => only_focused_pane_changed(
            o,
            n,
            PaneState {
                selected_message: select_down(p.selected_message, focused_messages(o).len()),
                ..p
            },
        ),
        Action::StartReply => match selected_of(o) {
            Some(m) => composing(o, n, InputView { reply_to: Some(m.id), editing: None, ..p.input@ }),
            None => n == o,
        },
        Action::StartEdit => match selected_of(o) {
            Some(m) => if own_message(o, m) {
                composing(
                    o,
                    n,
                    InputView {
                        content: m.content@,
                        cursor_pos: m.content@.len() as usize,
                        cursor_col: m.content@.len() as usize,
                        reply_to: None,
                        editing: Some(m.id),
                    },
                )
            } else {
                n == o
            },
            None => n == o,
        },
        Action::StartDelete => match selected_of(o) {
            Some(m) => if own_message(o, m) {
                only_focused_pane_changed(o, n, PaneState { confirming_delete: Some(m.id), ..p })
            } else {
                n == o
            },
            None => n == o,
        },
        Action::ConfirmDelete | Action::CancelDelete => only_focused_pane_changed(
            o,
            n,
            PaneState { confirming_delete: None, ..p },
        ),
        Action::ScrollUp(k) => scrolled(o, n, scroll_up(p.scroll, k)),
        Action::ScrollDown(k) => scrolled(o, n, scroll_down(p.scroll, k)),
        Action::ScrollToTop => scrolled(o, n, ScrollState::Manual { offset: usize::MAX }),
        Action::ScrollToBottom => scrolled(o, n, ScrollState::Following),
        Action::ToggleSidebar => n == AppState { sidebar_visible: !o.sidebar_visible, ..o },
        Action::FocusNextPane | Action::FocusPaneDirection(_) => n == AppState {
            focused_pane: ((o.focused_pane + 1) % (o.panes@.len() as int)) as usize,
            ..o
        },
        Action::SendMessage { .. } => n.panes@.len() == o.panes@.len() && (forall|k: int|
            0 <= k < o.panes@.len() && k != f ==> n.panes@[k] == o.panes@[k]) && n.panes@[f].id
            == p.id && n.panes@[f].channel_id == p.channel_id && n.panes@[f].guild_id
            == p.guild_id && n.panes@[f].scroll == p.scroll && n.panes@[f].selected_message
            == p.selected_message && n.panes@[f].input@ == InputView::empty() && AppState {
            panes: o.panes,
            ..n
        } == o,
        _ => n == o,
    }
}

/// The number of messages in the focused pane's channel.
fn focused_count(state: &AppState) -> (r: usize)
    requires
        state.wf(),
    ensures
        r == focused_messages(*state).len(),
{
    match state.focused_pane().channel_id {
        Some(c) => match state.cache.messages.get(&c) {
            Some(d) => d.len(),
            None => 0,
        },
        None => 0,
    }
}

/// The focused pane's selected message, when the selection points at one.
fn selected_message(state: &AppState) -> (r: Option<&CachedMessage>)
    requires
        state.wf(),
    ensures
        match r {
            Some(m) => selected_of(*state) == Some(*m),
            None => selected_of(*state) is None,
        },
{
    let pane = state.focused_pane();
    match pane.channel_id {
        Some(c) => match state.cache.messages.get(&c) {
            Some(d) => match pane.selected_message {
                Some(i) => if i < d.len() {
                    Some(&d[i])
                } else {
                    None
                },
                None => None,
            },
            None => None,
        },
        None => None,
    }
}

/// Applies an action to the state; every action marks the state dirty.
pub fn apply_action(action: Action, state: &mut AppState) -> (dirty: bool)
    requires
        old(state).wf(),
    ensures
        final(state).wf(),
        applied(*old(state), *final(state), action),
        dirty,
{
    match action {
        Action::EnterInsertMode => {
            state.input_mode = InputMode::Insert;
            true
        },
        Action::EnterNormalMode => {
            state.input_mode = InputMode::Normal;
            true
        },
        Action::EnterCommandMode => {
            state.input_mode = InputMode::Command;
            true
        },
        Action::EnterPanePrefix => {
            state.input_mode = InputMode::PanePrefix;
            true
        },
        Action::SwitchChannel(channel_id) => {
            let guild_id = match state.cache.channel_guild.get(&channel_id) {
                Some(g) => Some(*g),
                None => None,
            };
            let pane = state.focused_pane_mut();
            pane.channel_id = Some(channel_id);
            pane.guild_id = guild_id;
            pane.scroll = ScrollState::Following;
            pane.selected_message = None;
            pane.confirming_delete = None;
            true
        },
        Action::SelectMessageUp => {
            let len = focused_count(state);
            let pane = state.focused_pane_mut();
            pane.selected_message = match pane.selected_message {
                None => if len > 0 {
                    Some(len - 1)
                } else {
                    None
                },
                Some(i) => Some(
                    if i > 0 {
                        i - 1
                    } else {
                        0
                    },
                ),
            };
            true
        },
        Action::SelectMessageDown => {
            let len = focused_count(state);
            let pane = state.focused_pane_mut();
            pane.selected_message = match pane.selected_message {
                None => None,
                Some(i) => if len > 0 && i < len - 1 {
                    Some(i + 1)
                } else {
                    None
                },
            };
            true
        },
        Action::StartReply => {
            let id = match selected_message(state) {
                Some(m) => m.id,
                None => {
                    return true;
                },
            };
            state.input_mode = InputMode::Insert;
            let pane = state.focused_pane_mut();
            pane.input.reply_to = Some(id);
            pane.input.editing = None;
            true
        },
        Action::StartEdit => {
            let (id, content, own) = match selected_message(state) {
                Some(m) => (
                    m.id,
                    m.content.clone(),
                    match state.current_user_id {
                        Some(u) => u == m.author_id,
                        None => false,
                    },
                ),
                None => {
                    return true;
                },
            };
            if !own {
                return true;
            }
            let len = chars_of(content.as_str()).len();
            state.input_mode = InputMode::Insert;
            let pane = state.focused_pane_mut();
            pane.input = InputState {
                content,
                cursor_pos: len,
                cursor_col: len,
                reply_to: None,
                editing: Some(id),
            };
            true
        },
        Action::StartDelete => {
            let (id, own) = match selected_message(state) {
                Some(m) => (
                    m.id,
                    match state.current_user_id {
                        Some(u) => u == m.author_id,
                        None => false,
                    },
                ),
                None => {
                    return true;
                },
            };
            if own {
                let pane = state.focused_pane_mut();
                pane.confirming_delete = Some(id);
            }
            true
        },
        Action::ConfirmDelete | Action::CancelDelete => {
            let pane = state.focused_pane_mut();
            pane.confirming_delete = None;
            true
        },
        Action::ScrollUp(n) => {
            let pane = state.focused_pane_mut();
            pane.scroll = match pane.scroll {
                ScrollState::Following => ScrollState::Manual { offset: n },
                ScrollState::Manual { offset } => ScrollState::Manual {
                    offset: offset.saturating_add(n),
                },
            };
            true
        },
        Action::ScrollDown(n) => {
            let pane = state.focused_pane_mut();
            if let ScrollState::Manual { offset } = pane.scroll {
                let new_offset = offset.saturating_sub(n);
                if new_offset == 0 {
                    pane.scroll = ScrollState::Following;
                } else {
                    pane.scroll = ScrollState::Manual { offset: new_offset };
                }
            }
            // Scrolling down while following changes nothing.
            true
        },
        Action::ScrollToTop => {
            let pane = state.focused_pane_mut();
            pane.scroll = ScrollState::Manual { offset: usize::MAX };
            true
        },
        Action::ScrollToBottom => {
            let pane = state.focused_pane_mut();
            pane.scroll = ScrollState::Following;
            true
        },
        Action::ToggleSidebar => {
            state.sidebar_visible = !state.sidebar_visible;
            true
        },
        Action::FocusNextPane | Action::FocusPaneDirection(_) => {
            // Directional focus needs the pane tree's layout; here it cycles.
            let len = state.panes.len();
            state.focused_pane = (state.focused_pane + 1) % len;
            true
        },
        Action::SendMessage { .. } => {
            // The message itself goes out through the HTTP worker; the input box is cleared.
            let pane = state.focused_pane_mut();
            pane.input = InputState::empty();
            true
        },
        _ => true,
    }
}

/// `n` is `o` with only the focused pane's input box changed, to one whose model is `v`.
pub open spec fn input_edited(o: AppState, n: AppState, v: InputView) -> bool {
    let f = o.focused_pane as int;
    &&& only_focused_pane_changed(o, n, PaneState { input: n.panes@[f].input, ..o.panes@[f] })
    &&& n.panes@[f].input@ == v
}

/// What a key does in Insert mode: Esc returns to Normal mode; Enter sends the typed text to
/// the pane's channel when there is both; the editing keys change the input box; other keys
/// do nothing. `dirty` says whether the state changed.
pub open spec fn insert_key_handled(o: AppState, n: AppState, key: KeyEvent, dirty: bool) -> bool {
    let p = o.panes@[o.focused_pane as int];
    match key.code {
        KeyCode::Esc => applied(o, n, Action::EnterNormalMode) && dirty,
        KeyCode::Enter => if p.channel_id is Some && p.input.content@.len() > 0 {
            &&& applied(
                o,
                n,
                Action::SendMessage {
                    channel_id: p.channel_id->0,
                    content: p.input.content,
                    reply_to: p.input.reply_to,
                },
            )
            &&& dirty
        } else {
            n == o && !dirty
        },
        KeyCode::Char(c) => input_edited(o, n, inserted(p.input@, c)) && dirty,
        KeyCode::Backspace => input_edited(o, n, deleted_before(p.input@)) && dirty,
        KeyCode::Left => input_edited(o, n, moved_left(p.input@)) && dirty,
        KeyCode::Right => input_edited(o, n, moved_right(p.input@)) && dirty,
        KeyCode::Home => input_edited(o, n, at_cursor(p.input@, 0)) && dirty,
        KeyCode::End => input_edited(o, n, at_cursor(p.input@, p.input@.content.len() as int))
            && dirty,
        _ => n == o && !dirty,
    }
}

/// What a key does outside Insert mode: the key handler gives an action and the next mode;
/// the mode is set, then the action applied. `dirty` says whether anything changed.
pub open spec fn key_handled(o: AppState, n: AppState, key: KeyEvent, dirty: bool) -> bool {
    let (action, mode) = key_result(key, o.input_mode);
    let mid = AppState { input_mode: mode, ..o };
    match action {
        Some(a) => applied(mid, n, a) && dirty,
        None => n == mid && dirty == (mode != o.input_mode),
    }
}

/// Whether an action ends the application.
pub open spec fn quits(action: Option<Action>) -> bool {
    action matches Some(a) && (a == Action::Quit || a == Action::ForceQuit)
}

/// The application: its state, whether it must be drawn again, and whether it must end.
pub struct App {
    pub state: AppState,
    pub dirty: bool,
    pub should_quit: bool,
}

impl App {
    /// A new application, to be drawn on the first frame.
    pub fn new(config: AppConfig) -> (app: Self)
        ensures
            app.state.wf(),
            app.state.panes@.len() == 1,
            app.state.focused_pane == 0,
            app.state.input_mode == InputMode::Normal,
            app.state.connection == ConnectionState::Disconnected,
            app.state.cache.is_empty(),
            app.dirty,
            !app.should_quit,
    {
        App { state: AppState::new(config), dirty: true, should_quit: false }
    }

    /// Handles a key press; returns whether the state changed.
    pub fn handle_terminal_event(&mut self, key: KeyEvent) -> (dirty: bool)
        requires
            old(self).state.wf(),
        ensures
            final(self).state.wf(),
            final(self).dirty == old(self).dirty,
            old(self).state.input_mode == InputMode::Insert ==> {
                &&& insert_key_handled(old(self).state, final(self).state, key, dirty)
                &&& final(self).should_quit == old(self).should_quit
            },
            old(self).state.input_mode != InputMode::Insert ==> {
                &&& key_handled(old(self).state, final(self).state, key, dirty)
                &&& final(self).should_quit == (old(self).should_quit || quits(
                    key_result(key, old(self).state.input_mode).0,
                ))
            },
    {
        if self.state.input_mode == InputMode::Insert {
            match key.code {
                KeyCode::Esc => {
                    return apply_action(Action::EnterNormalMode, &mut self.state);
                },
                KeyCode::Enter => {
                    let pane = self.state.focused_pane();
                    if let Some(channel_id) = pane.channel_id {
                        if !pane.input.content.as_str().is_empty() {
                            let content = pane.input.content.clone();
                            let reply_to = pane.input.reply_to;
                            proof {
                                assert(content@.len() > 0);
                            }
                            return apply_action(
                                Action::SendMessage { channel_id, content, reply_to },
                                &mut self.state,
                            );
                        }
                    }
                    return false;
                },
                KeyCode::Char(c) => {
                    insert_char(&mut self.state.focused_pane_mut().input, c);
                    return true;
                },
                KeyCode::Backspace => {
                    delete_char_before_cursor(&mut self.state.focused_pane_mut().input);
                    return true;
                },
                KeyCode::Left => {
                    move_cursor_left(&mut self.state.focused_pane_mut().input);
                    return true;
                },
                KeyCode::Right => {
                    move_cursor_right(&mut self.state.focused_pane_mut().input);
                    return true;
                },
                KeyCode::Home => {
                    move_cursor_home(&mut self.state.focused_pane_mut().input);
                    return true;
                },
                KeyCode::End => {
                    move_cursor_end(&mut self.state.focused_pane_mut().input);
                    return true;
                },
                _ => {
                    return false;
                },
            }
        }
        let (action, new_mode) = handle_key_event(key, self.state.input_mode);
        let mode_changed = new_mode != self.state.input_mode;
        self.state.input_mode = new_mode;
        let quit = match &action {
            Some(Action::Quit) | Some(Action::ForceQuit) => true,
            _ => false,
        };
        if quit {
            self.should_quit = true;
        }
        match action {
            Some(a) => {
                let dirty = apply_action(a, &mut self.state);
                dirty || mode_changed
            },
            None => mode_changed,
        }
    }
}

/// How many messages a channel loads when it is opened.
pub const OPEN_CHANNEL_FETCH_LIMIT: u8 = 50;

/// Whether `r` edits message `m` of channel `c` to `content`.
pub open spec fn is_edit_request(r: HttpRequest, c: u64, m: u64, content: Seq<char>) -> bool {
    r matches HttpRequest::EditMessage { channel_id, message_id, content: t } && channel_id == c
        && message_id == m && t@ == content
}

/// Whether `r` sends `content` to channel `c`, answering `reply_to`, with a snowflake nonce.
pub open spec fn is_send_request(
    r: HttpRequest,
    c: u64,
    content: Seq<char>,
    reply_to: Option<u64>,
) -> bool {
    r matches HttpRequest::SendMessage { channel_id, content: t, nonce, reply_to: to }
        && channel_id == c && t@ == content && to == reply_to && exists|now_ms: u64, random: u32|
        nonce@ == decimal(snowflake(now_ms, random))
}

/// The request that loads the newest messages of channel `c` from Discord.
pub open spec fn is_http_fetch(r: HttpRequest, c: u64) -> bool {
    r == HttpRequest::FetchMessages { channel_id: c, before: None, limit: OPEN_CHANNEL_FETCH_LIMIT }
}

/// The request that loads the newest stored messages of channel `c`.
pub open spec fn is_db_fetch(r: DbRequest, c: u64) -> bool {
    r == DbRequest::FetchMessages {
        channel_id: c,
        before_timestamp: None,
        limit: OPEN_CHANNEL_FETCH_LIMIT as u32,
    }
}

/// What a key press sends out besides changing the state.
#[derive(Debug)]
pub struct KeyDispatch {
    /// Whether the state changed.
    pub dirty: bool,
    /// Requests for the HTTP worker, in order.
    pub http: Vec<HttpRequest>,
    /// Requests for the storage worker, in order.
    pub db: Vec<DbRequest>,
    /// The channel the focused pane newly shows, and its guild.
    pub opened: Option<(u64, Option<u64>)>,
}

/// Handles a key press and says what must go out: Enter in Insert mode sends the typed text
/// (or, while a message is being edited, edits it); confirming a pending deletion deletes the
/// message; opening another channel in the focused pane loads its newest messages, from
/// storage and from Discord.
pub fn handle_key_with_dispatch(app: &mut App, key: KeyEvent) -> (d: KeyDispatch)
    requires
        old(app).state.wf(),
    ensures
        final(app).state.wf(),
        final(app).dirty == old(app).dirty,
        old(app).state.input_mode == InputMode::Insert ==> {
            &&& insert_key_handled(old(app).state, final(app).state, key, d.dirty)
            &&& final(app).should_quit == old(app).should_quit
        },
        old(app).state.input_mode != InputMode::Insert ==> {
            &&& key_handled(old(app).state, final(app).state, key, d.dirty)
            &&& final(app).should_quit == (old(app).should_quit || quits(
                key_result(key, old(app).state.input_mode).0,
            ))
        },
        ({
            let o = old(app).state;
            let p = o.panes@[o.focused_pane as int];
            let n = final(app).state;
            let q = n.panes@[n.focused_pane as int];
            let sent = o.input_mode == InputMode::Insert && key.code == KeyCode::Enter
                && p.channel_id is Some && p.input.content@.len() > 0;
            let confirmed = o.input_mode != InputMode::Insert && key_result(key, o.input_mode).0
                == Some(Action::ConfirmDelete) && p.confirming_delete is Some
                && p.channel_id is Some;
            let opened = q.channel_id != p.channel_id && q.channel_id is Some;
            &&& d.http@.len() == (if sent { 1int } else { 0 }) + (if confirmed { 1int } else { 0 })
                + (if opened { 1int } else { 0 })
            &&& confirmed ==> d.http@[0] == HttpRequest::DeleteMessage {
                channel_id: p.channel_id->0,
                message_id: p.confirming_delete->0,
            }
            &&& sent ==> match p.input.editing {
                Some(m) => is_edit_request(d.http@[0], p.channel_id->0, m, p.input.content@),
                None => is_send_request(
                    d.http@[0],
                    p.channel_id->0,
                    p.input.content@,
                    p.input.reply_to,
                ),
            }
            &&& opened ==> is_http_fetch(d.http@.last(), q.channel_id->0)
            &&& d.db@.len() == (if opened { 1int } else { 0 })
            &&& opened ==> is_db_fetch(d.db@[0], q.channel_id->0)
            &&& d.opened == (if opened { Some((q.channel_id->0, q.guild_id)) } else { None })
        }),
{
    let pre_channel = app.state.focused_pane().channel_id;
    let mut http: Vec<HttpRequest> = Vec::new();
    let mut db: Vec<DbRequest> = Vec::new();
    let mut send: Option<HttpRequest> = None;
    if app.state.input_mode == InputMode::Insert && key.code == KeyCode::Enter {
        let pane = app.state.focused_pane();
        if let Some(channel_id) = pane.channel_id {
            if !pane.input.content.as_str().is_empty() {
                let content = pane.input.content.clone();
                send = Some(
                    match pane.input.editing {
                        Some(message_id) => HttpRequest::EditMessage { channel_id, message_id, content },
                        None => HttpRequest::SendMessage {
                            channel_id,
                            content,
                            nonce: generate_nonce(),
                            reply_to: pane.input.reply_to,
                        },
                    },
                );
            }
        }
    }
    if app.state.input_mode != InputMode::Insert {
        let (action, _) = handle_key_event(key, app.state.input_mode);
        if matches!(action, Some(Action::ConfirmDelete)) {
            let pane = app.state.focused_pane();
            if let (Some(channel_id), Some(message_id)) = (pane.channel_id, pane.confirming_delete) {
                send = Some(HttpRequest::DeleteMessage { channel_id, message_id });
            }
        }
    }
    let dirty = app.handle_terminal_event(key);
    if let Some(r) = send {
        http.push(r);
    }
    let post = app.state.focused_pane();
    let mut opened: Option<(u64, Option<u64>)> = None;
    if post.channel_id != pre_channel {
        if let Some(ch) = post.channel_id {
            db.push(
                DbRequest::FetchMessages {
                    channel_id: ch,
                    before_timestamp: None,
                    limit: OPEN_CHANNEL_FETCH_LIMIT as u32,
                },
            );
            http.push(
                HttpRequest::FetchMessages {
                    channel_id: ch,
                    before: None,
                    limit: OPEN_CHANNEL_FETCH_LIMIT,
                },
            );
            opened = Some((ch, post.guild_id));
        }
    }
    KeyDispatch { dirty, http, db, opened }
}

/// What the main loop has just seen.
#[derive(Debug, Clone, Copy, PartialEq, Eq, Structural)]
pub enum RunEvent {
    /// The Esc key.
    EscapeKey,
    /// Any other key, or a terminal resize.
    OtherKey,
    /// The time allowed for the connection to come up ran out.
    ConnectDeadline,
    /// A gateway event was handled.
    Gateway,
    /// A result of a background worker was handled.
    Background,
    /// A timer ticked.
    Tick,
}

/// What the main loop does next.
#[derive(Debug, Clone, Copy, PartialEq, Eq, Structural)]
pub enum RunOutcome {
    /// Go on.
    Continue,
    /// Leave for the login screen.
    ReturnToLogin,
    /// End the application.
    Quit,
}

/// Whether the main loop leaves for the login screen: Esc, or the end of the time allowed,
/// while the connection has not come up yet.
pub open spec fn returns_to_login(connected: bool, event: RunEvent) -> bool {
    !connected && (event == RunEvent::EscapeKey || event == RunEvent::ConnectDeadline)
}

/// One decision of the main loop: whether the connection is now up (it stays up once it has
/// come up), and whether to go on, go back to the login screen (Esc or the deadline before the
/// connection is up) or quit (once the application asked to).
pub fn run_step(
    connected: bool,
    event: RunEvent,
    connection: &ConnectionState,
    should_quit: bool,
) -> (r: (bool, RunOutcome))
    ensures
        r.0 == (connected || connection is Connected),
        r.1 == if returns_to_login(connected, event) {
            RunOutcome::ReturnToLogin
        } else if should_quit {
            RunOutcome::Quit
        } else {
            RunOutcome::Continue
        },
{
    let now_connected = connected || match connection {
        ConnectionState::Connected { .. } => true,
        _ => false,
    };
    let leave = !connected && (event == RunEvent::EscapeKey || event == RunEvent::ConnectDeadline);
    let outcome = if leave {
        RunOutcome::ReturnToLogin
    } else if should_quit {
        RunOutcome::Quit
    } else {
        RunOutcome::Continue
    };
    (now_connected, outcome)
}

/// The focused pane returns to following after scrolling up and then down by the same amount,
/// when it was following, or scrolled by a positive offset that leaves room above.
pub proof fn law_scroll_up_then_down(s: ScrollState, n: usize)
    requires
        s matches ScrollState::Manual { offset } ==> offset > 0 && offset + n <= usize::MAX,
    ensures
        scroll_down(scroll_up(s, n), n) == s,
{
}

/// Scrolling to the bottom always ends in following, whatever the scroll state.
pub proof fn law_scroll_to_bottom_follows(o: AppState, n: AppState)
    requires
        o.wf(),
        applied(o, n, Action::ScrollToBottom),
    ensures
        n.panes@[o.focused_pane as int].scroll == ScrollState::Following,
{
}

/// The focus after moving it to the next of `k` panes `times` times, from `f`.
pub open spec fn focus_after(f: int, k: int, times: nat) -> int
    decreases times,
{
    if times == 0 {
        f
    } else {
        (focus_after(f, k, (times - 1) as nat) + 1) % k
    }
}

proof fn lemma_focus_after(f: int, k: int, times: nat)
    requires
        0 <= f < k,
    ensures
        focus_after(f, k, times) == (f + times) % k,
    decreases times,
{
    if times == 0 {
        vstd::arithmetic::div_mod::lemma_small_mod(f as nat, k as nat);
    } else {
        lemma_focus_after(f, k, (times - 1) as nat);
        vstd::arithmetic::div_mod::lemma_add_mod_noop(f + times - 1, 1, k);
        if k > 1 {
            vstd::arithmetic::div_mod::lemma_small_mod(1, k as nat);
        } else {
            assert(k == 1);
            assert((focus_after(f, k, (times - 1) as nat) + 1) % 1 == 0);
            assert((f + times) % 1 == 0);
        }
    }
}

/// Moving focus to the next pane keeps the panes, moves to the following one (the first after
/// the last), and as many moves as there are panes come back to where focus started.
pub proof fn law_focus_next_pane_wraps(o: AppState, n: AppState)
    requires
        o.wf(),
        applied(o, n, Action::FocusNextPane),
    ensures
        n.wf(),
        n.panes == o.panes,
        n.focused_pane == (o.focused_pane + 1) % (o.panes@.len() as int),
        focus_after(o.focused_pane as int, o.panes@.len() as int, o.panes@.len()) == o.focused_pane,
{
    let k = o.panes@.len() as int;
    let f = o.focused_pane as int;
    assert(o.panes.len() == o.panes@.len());
    lemma_focus_after(f, k, k as nat);
    vstd::arithmetic::div_mod::lemma_mod_pos_bound(f + 1, k);
    assert(n.focused_pane as int == (f + 1) % k);
    vstd::arithmetic::div_mod::lemma_mod_add_multiples_vanish(f, k);
    vstd::arithmetic::div_mod::lemma_small_mod(f as nat, k as nat);
    assert((f + k) % k == f);
}

} // verus!
