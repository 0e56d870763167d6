use discordinator::types::{
    channel_type_from_u8, Action, BackgroundResult, CachedChannel, CachedGuild, CachedMessage,
    CachedRole, CachedUser, ChannelType, ConnectionState, DbRequest, Direction, HttpRequest,
    InputState, MessageAttachment, MessageEmbed, MessageReference, PaneId, ReadState, ScrollState,
    SplitDirection, MAX_CACHED_MESSAGES_PER_CHANNEL,
};
use std::collections::{HashMap, HashSet};

#[test]
fn pane_id_is_distinct_type() {
    let pane = PaneId(1);
    let pane2 = PaneId(2);
    assert_ne!(pane, pane2);
    assert_eq!(pane, PaneId(1));
}

#[test]
fn pane_id_is_copy_and_hash() {
    let pane = PaneId(42);
    let pane_copy = pane;
    assert_eq!(pane, pane_copy);
    let mut set = HashSet::new();
    set.insert(pane);
    assert!(set.contains(&PaneId(42)));
}

#[test]
fn connection_state_variants() {
    let disconnected = ConnectionState::Disconnected;
    let connecting = ConnectionState::Connecting;
    let connected = ConnectionState::Connected {
        session_id: "abc".to_string(),
        resume_url: "wss://example.com".to_string(),
        sequence: 42,
    };
    let resuming = ConnectionState::Resuming {
        session_id: "abc".to_string(),
        resume_url: "wss://example.com".to_string(),
        sequence: 42,
    };
    assert_eq!(disconnected, ConnectionState::Disconnected);
    assert_eq!(connecting, ConnectionState::Connecting);
    assert_ne!(disconnected, connecting);
    if let ConnectionState::Connected { session_id, sequence, .. } = &connected {
        assert_eq!(session_id, "abc");
        assert_eq!(*sequence, 42);
    } else {
        panic!("Expected Connected variant");
    }
    if let ConnectionState::Resuming { session_id, sequence, .. } = &resuming {
        assert_eq!(session_id, "abc");
        assert_eq!(*sequence, 42);
    } else {
        panic!("Expected Resuming variant");
    }
}

#[test]
fn cached_message_construction() {
    let msg = CachedMessage {
        id: 1,
        channel_id: 2,
        author_id: 3,
        content: "Hello world".to_string(),
        timestamp: "2024-01-01T00:00:00Z".to_string(),
        edited_timestamp: None,
        attachments: vec![],
        embeds: vec![],
        message_reference: None,
        mention_everyone: false,
        mentions: vec![],
        rendered: None,
    };
    assert_eq!(msg.content, "Hello world");
    assert_eq!(msg.id, 1);
    assert!(msg.attachments.is_empty());
}

#[test]
fn cached_message_with_attachments_and_embeds() {
    let msg = CachedMessage {
        id: 1,
        channel_id: 2,
        author_id: 3,
        content: "Check this out".to_string(),
        timestamp: "2024-01-01T00:00:00Z".to_string(),
        edited_timestamp: Some("2024-01-01T01:00:00Z".to_string()),
        attachments: vec![MessageAttachment {
            filename: "photo.png".to_string(),
            size: 1024,
            url: "https://cdn.example.com/photo.png".to_string(),
            content_type: Some("image/png".to_string()),
        }],
        embeds: vec![MessageEmbed {
            title: Some("Link Title".to_string()),
            description: Some("Description".to_string()),
            color: Some(0xFF0000),
            url: Some("https://example.com".to_string()),
        }],
        message_reference: Some(MessageReference {
            message_id: Some(100),
            channel_id: Some(2),
            guild_id: None,
        }),
        mention_everyone: false,
        mentions: vec![10, 20],
        rendered: None,
    };
    assert_eq!(msg.attachments.len(), 1);
    assert_eq!(msg.attachments[0].filename, "photo.png");
    assert_eq!(msg.embeds.len(), 1);
    assert_eq!(msg.embeds[0].title, Some("Link Title".to_string()));
    assert!(msg.message_reference.is_some());
    assert_eq!(msg.mentions.len(), 2);
    assert!(msg.edited_timestamp.is_some());
}

#[test]
fn action_variants_constructible() {
    let actions = vec![
        Action::SwitchChannel(1),
        Action::ScrollUp(10),
        Action::ScrollDown(10),
        Action::ScrollToTop,
        Action::ScrollToBottom,
        Action::SendMessage { channel_id: 1, content: "hello".to_string(), reply_to: None },
        Action::EditMessage { message_id: 1, content: "edited".to_string() },
        Action::DeleteMessage { message_id: 1, channel_id: 2 },
        Action::EnterInsertMode,
        Action::EnterNormalMode,
        Action::EnterCommandMode,
        Action::EnterPanePrefix,
        Action::SplitPane(SplitDirection::Horizontal),
        Action::SplitPane(SplitDirection::Vertical),
        Action::ClosePane,
        Action::FocusNextPane,
        Action::FocusPaneDirection(Direction::Up),
        Action::ResizePane(Direction::Left, 5),
        Action::ToggleZoom,
        Action::SwapPane(Direction::Right),
        Action::ToggleSidebar,
        Action::ToggleCommandPalette,
        Action::SidebarNavigateUp,
        Action::SidebarNavigateDown,
        Action::SidebarSelect,
        Action::SidebarCollapse,
        Action::SidebarToggleCollapse,
        Action::FocusSidebar,
        Action::FocusPaneArea,
        Action::StartReply,
        Action::StartEdit,
        Action::StartDelete,
        Action::ConfirmDelete,
        Action::CancelDelete,
        Action::SelectMessageUp,
        Action::SelectMessageDown,
        Action::Quit,
        Action::ForceQuit,
    ];
    assert_eq!(actions.len(), 38);
}

#[test]
fn scroll_state_variants() {
    let following = ScrollState::Following;
    let manual = ScrollState::Manual { offset: 42 };
    assert_eq!(following, ScrollState::Following);
    if let ScrollState::Manual { offset } = manual {
        assert_eq!(offset, 42);
    } else {
        panic!("Expected Manual variant");
    }
}

#[test]
fn input_state_default() {
    let input = InputState::default();
    assert!(input.content.is_empty());
    assert_eq!(input.cursor_pos, 0);
    assert_eq!(input.cursor_col, 0);
    assert!(input.reply_to.is_none());
    assert!(input.editing.is_none());
}

#[test]
fn http_request_variants() {
    let req = HttpRequest::SendMessage {
        channel_id: 1,
        content: "hello".to_string(),
        nonce: "abc123".to_string(),
        reply_to: Some(99),
    };
    if let HttpRequest::SendMessage { channel_id, reply_to, .. } = req {
        assert_eq!(channel_id, 1);
        assert_eq!(reply_to.unwrap(), 99);
    }
}

#[test]
fn db_request_variants() {
    let req = DbRequest::FetchMessages { channel_id: 1, before_timestamp: None, limit: 50 };
    if let DbRequest::FetchMessages { limit, .. } = req {
        assert_eq!(limit, 50);
    }
}

#[test]
fn background_result_variants() {
    let result = BackgroundResult::HttpError {
        request: "SendMessage".to_string(),
        error: "rate limited".to_string(),
    };
    if let BackgroundResult::HttpError { request, error } = result {
        assert_eq!(request, "SendMessage");
        assert_eq!(error, "rate limited");
    }
}

#[test]
fn max_cached_messages_constant() {
    assert_eq!(MAX_CACHED_MESSAGES_PER_CHANNEL, 200);
}

#[test]
fn cached_guild_construction() {
    let guild = CachedGuild {
        id: 1,
        name: "Test Server".to_string(),
        icon: Some("abc123".to_string()),
        channel_order: vec![10, 20],
        roles: HashMap::new(),
    };
    assert_eq!(guild.name, "Test Server");
    assert_eq!(guild.channel_order.len(), 2);
}

#[test]
fn cached_channel_construction() {
    let channel = CachedChannel {
        id: 10,
        guild_id: Some(1),
        name: "general".to_string(),
        kind: ChannelType::GuildText,
        position: 0,
        parent_id: None,
        topic: Some("General chat".to_string()),
    };
    assert_eq!(channel.name, "general");
    assert_eq!(channel.kind, ChannelType::GuildText);
}

#[test]
fn cached_user_construction() {
    let user = CachedUser {
        id: 100,
        name: "testuser".to_string(),
        discriminator: None,
        display_name: Some("Test User".to_string()),
        avatar: None,
    };
    assert_eq!(user.name, "testuser");
    assert_eq!(user.display_name, Some("Test User".to_string()));
}

#[test]
fn cached_role_construction() {
    let role = CachedRole { id: 200, name: "Admin".to_string(), color: 0xFF0000, position: 10 };
    assert_eq!(role.name, "Admin");
    assert_eq!(role.color, 0xFF0000);
}

#[test]
fn read_state_construction() {
    let state = ReadState { last_message_id: 999, mention_count: 3 };
    assert_eq!(state.last_message_id, 999);
    assert_eq!(state.mention_count, 3);
}

#[test]
fn channel_type_codes() {
    assert_eq!(channel_type_from_u8(0), ChannelType::GuildText);
    assert_eq!(channel_type_from_u8(1), ChannelType::Private);
    assert_eq!(channel_type_from_u8(2), ChannelType::GuildVoice);
    assert_eq!(channel_type_from_u8(4), ChannelType::GuildCategory);
    assert_eq!(channel_type_from_u8(15), ChannelType::GuildForum);
    // Unknown codes read as text channels.
    assert_eq!(channel_type_from_u8(99), ChannelType::GuildText);
}
