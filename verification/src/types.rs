use std::collections::HashMap;
use vstd::prelude::*;

verus! {

/// Maximum messages kept in memory per channel.
pub const MAX_CACHED_MESSAGES_PER_CHANNEL: usize = 200;

/// Identifier of a pane. Distinct from Discord snowflake ids, which are plain `u64`s here.
#[derive(Debug, Clone, Copy, PartialEq, Eq, Structural, Hash)]
pub struct PaneId(pub u32);

/// Gateway connection state machine.
#[derive(Debug, Clone, PartialEq)]
pub enum ConnectionState {
    Disconnected,
    Connecting,
    Connected { session_id: String, resume_url: String, sequence: u64 },
    Resuming { session_id: String, resume_url: String, sequence: u64 },
}

/// The kinds of channel the client distinguishes.
#[derive(Debug, Clone, Copy, PartialEq, Eq, Structural)]
pub enum ChannelType {
    GuildText,
    Private,
    GuildVoice,
    Group,
    GuildCategory,
    GuildAnnouncement,
    GuildStageVoice,
    GuildForum,
}

/// Channel kind for a numeric channel type code; unknown codes read as a text channel.
pub open spec fn channel_type_of(kind: u8) -> ChannelType {
    if kind == 1 {
        ChannelType::Private
    } else if kind == 2 {
        ChannelType::GuildVoice
    } else if kind == 3 {
        ChannelType::Group
    } else if kind == 4 {
        ChannelType::GuildCategory
    } else if kind == 5 {
        ChannelType::GuildAnnouncement
    } else if kind == 13 {
        ChannelType::GuildStageVoice
    } else if kind == 15 {
        ChannelType::GuildForum
    } else {
        ChannelType::GuildText
    }
}

/// Maps a numeric channel type code to its kind.
pub fn channel_type_from_u8(kind: u8) -> (t: ChannelType)
    ensures
        t == channel_type_of(kind),
{
    match kind {
        1 => ChannelType::Private,
        2 => ChannelType::GuildVoice,
        3 => ChannelType::Group,
        4 => ChannelType::GuildCategory,
        5 => ChannelType::GuildAnnouncement,
        13 => ChannelType::GuildStageVoice,
        15 => ChannelType::GuildForum,
        _ => ChannelType::GuildText,
    }
}

/// Cached role data.
#[derive(Debug, Clone, PartialEq)]
pub struct CachedRole {
    pub id: u64,
    pub name: String,
    pub color: u32,
    pub position: i32,
}

/// Cached guild data; `roles` maps role ids to roles.
#[derive(Debug, Clone, PartialEq)]
pub struct CachedGuild {
    pub id: u64,
    pub name: String,
    pub icon: Option<String>,
    pub channel_order: Vec<u64>,
    pub roles: HashMap<u64, CachedRole>,
}

/// Cached channel data.
#[derive(Debug, Clone, PartialEq)]
pub struct CachedChannel {
    pub id: u64,
    pub guild_id: Option<u64>,
    pub name: String,
    pub kind: ChannelType,
    pub position: i32,
    pub parent_id: Option<u64>,
    pub topic: Option<String>,
}

/// Cached user data.
#[derive(Debug, Clone, PartialEq)]
pub struct CachedUser {
    pub id: u64,
    pub name: String,
    pub discriminator: Option<u16>,
    pub display_name: Option<String>,
    pub avatar: Option<String>,
}

/// Message attachment metadata.
#[derive(Debug, Clone, PartialEq)]
pub struct MessageAttachment {
    pub filename: String,
    pub size: u64,
    pub url: String,
    pub content_type: Option<String>,
}

/// Simplified embed data.
#[derive(Debug, Clone, PartialEq)]
pub struct MessageEmbed {
    pub title: Option<String>,
    pub description: Option<String>,
    pub color: Option<u32>,
    pub url: Option<String>,
}

/// Message reference (for replies).
#[derive(Debug, Clone, Copy, PartialEq, Eq, Structural)]
pub struct MessageReference {
    pub message_id: Option<u64>,
    pub channel_id: Option<u64>,
    pub guild_id: Option<u64>,
}

/// A styled piece of text in a rendered line.
#[derive(Debug, Clone, PartialEq)]
pub struct StyledText {
    pub text: String,
    pub style: TextStyle,
}

/// A terminal color.
#[derive(Debug, Clone, Copy, PartialEq, Eq, Structural)]
pub enum Color {
    Reset,
    Gray,
    DarkGray,
    LightBlue,
    Yellow,
    Rgb(u8, u8, u8),
}

/// Foreground/background colors and text modifiers of a piece of text.
#[derive(Debug, Clone, Copy, PartialEq, Eq, Structural)]
pub struct TextStyle {
    pub fg: Option<Color>,
    pub bg: Option<Color>,
    pub bold: bool,
    pub italic: bool,
    pub underlined: bool,
    pub crossed_out: bool,
}

/// One rendered line: a sequence of styled pieces.
#[derive(Debug, Clone, PartialEq)]
pub struct RenderedLine {
    pub spans: Vec<StyledText>,
}

/// Cached message data.
#[derive(Debug, Clone, PartialEq)]
pub struct CachedMessage {
    pub id: u64,
    pub channel_id: u64,
    pub author_id: u64,
    pub content: String,
    pub timestamp: String,
    pub edited_timestamp: Option<String>,
    pub attachments: Vec<MessageAttachment>,
    pub embeds: Vec<MessageEmbed>,
    pub message_reference: Option<MessageReference>,
    pub mention_everyone: bool,
    pub mentions: Vec<u64>,
    /// Rendered output, computed lazily and dropped on edit.
    pub rendered: Option<Vec<RenderedLine>>,
}

/// Per-channel read state.
#[derive(Debug, Clone, Copy, PartialEq, Eq, Structural)]
pub struct ReadState {
    pub last_message_id: u64,
    pub mention_count: u32,
}

/// Direction for pane operations.
#[derive(Debug, Clone, Copy, PartialEq, Eq, Structural)]
pub enum Direction {
    Up,
    Down,
    Left,
    Right,
}

/// Pane split direction.
#[derive(Debug, Clone, Copy, PartialEq, Eq, Structural)]
pub enum SplitDirection {
    Horizontal,
    Vertical,
}

/// Scroll state machine.
#[derive(Debug, Clone, Copy, PartialEq, Eq, Structural)]
pub enum ScrollState {
    Following,
    Manual { offset: usize },
}

/// Input state for a pane's input box.
#[derive(Debug, Clone, PartialEq)]
pub struct InputState {
    pub content: String,
    pub cursor_pos: usize,
    pub cursor_col: usize,
    pub reply_to: Option<u64>,
    pub editing: Option<u64>,
}

/// The model of an input box: its text as characters, and the cursor and targets.
pub struct InputView {
    pub content: Seq<char>,
    pub cursor_pos: usize,
    pub cursor_col: usize,
    pub reply_to: Option<u64>,
    pub editing: Option<u64>,
}

impl InputView {
    /// The model of an empty input box.
    pub open spec fn empty() -> InputView {
        InputView { content: Seq::empty(), cursor_pos: 0, cursor_col: 0, reply_to: None, editing: None }
    }
}

impl View for InputState {
    type V = InputView;

    open spec fn view(&self) -> InputView {
        InputView {
            content: self.content@,
            cursor_pos: self.cursor_pos,
            cursor_col: self.cursor_col,
            reply_to: self.reply_to,
            editing: self.editing,
        }
    }
}

impl InputState {
    /// The empty input box.
    pub open spec fn spec_empty(self) -> bool {
        self@ == InputView::empty()
    }

    /// An empty input box with the cursor at the start.
    pub fn empty() -> (s: Self)
        ensures
            s.spec_empty(),
    {
        InputState { content: String::new(), cursor_pos: 0, cursor_col: 0, reply_to: None, editing: None }
    }
}

impl Default for InputState {
    fn default() -> (s: Self)
        ensures
            s.spec_empty(),
    {
        InputState::empty()
    }
}

/// All state mutations flow through an action.
#[derive(Debug, Clone, PartialEq)]
pub enum Action {
    SwitchChannel(u64),
    ScrollUp(usize),
    ScrollDown(usize),
    ScrollToTop,
    ScrollToBottom,
    SendMessage { channel_id: u64, content: String, reply_to: Option<u64> },
    EditMessage { message_id: u64, content: String },
    DeleteMessage { message_id: u64, channel_id: u64 },
    EnterInsertMode,
    EnterNormalMode,
    EnterCommandMode,
    EnterPanePrefix,
    SplitPane(SplitDirection),
    ClosePane,
    FocusNextPane,
    FocusPaneDirection(Direction),
    ResizePane(Direction, i16),
    ToggleZoom,
    SwapPane(Direction),
    ToggleSidebar,
    ToggleCommandPalette,
    SidebarNavigateUp,
    SidebarNavigateDown,
    SidebarSelect,
    SidebarCollapse,
    SidebarToggleCollapse,
    FocusSidebar,
    FocusPaneArea,
    StartReply,
    StartEdit,
    StartDelete,
    ConfirmDelete,
    CancelDelete,
    SelectMessageUp,
    SelectMessageDown,
    Quit,
    ForceQuit,
}

/// Requests sent to the HTTP worker.
#[derive(Debug, Clone, PartialEq)]
pub enum HttpRequest {
    SendMessage { channel_id: u64, content: String, nonce: String, reply_to: Option<u64> },
    EditMessage { channel_id: u64, message_id: u64, content: String },
    DeleteMessage { channel_id: u64, message_id: u64 },
    FetchMessages { channel_id: u64, before: Option<u64>, limit: u8 },
    SendTyping { channel_id: u64 },
}

/// Requests sent to the storage worker.
#[derive(Debug, Clone, PartialEq)]
pub enum DbRequest {
    InsertMessage(CachedMessage),
    InsertMessages(Vec<CachedMessage>),
    UpdateMessage { id: u64, content: String, edited_timestamp: String },
    DeleteMessage(u64),
    FetchMessages { channel_id: u64, before_timestamp: Option<String>, limit: u32 },
    SaveSession { name: String, layout_json: String },
    LoadSession { name: String },
}

/// Results from background workers back to the main loop.
#[derive(Debug, Clone, PartialEq)]
pub enum BackgroundResult {
    MessagesFetched { channel_id: u64, messages: Vec<CachedMessage> },
    HttpError { request: String, error: String },
    CachedMessages { channel_id: u64, messages: Vec<CachedMessage> },
    SessionLoaded { name: String, layout_json: Option<String> },
    DbError { operation: String, error: String },
}

} // verus!
