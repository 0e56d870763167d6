use discordinator::app::AppState;
use discordinator::config::AppConfig;
use discordinator::event::{GatewayEvent, GuildCreateEvent, MessageCreateEvent, MessageUpdateEvent, ReadyEvent};
use discordinator::event_handler::{handle_background_result, handle_gateway_event, TYPING_TIMEOUT_MS};
use discordinator::json::{JsonNumber, JsonValue};
use discordinator::records::{parse_channel_json, parse_dm_channel_json, parse_guild_json};
use discordinator::types::{
    channel_type_from_u8, BackgroundResult, CachedGuild, CachedMessage, ChannelType,
    ConnectionState, DbRequest,
};
use std::collections::HashMap;

fn from_serde(v: &serde_json::Value) -> JsonValue {
    match v {
        serde_json::Value::Null => JsonValue::Null,
        serde_json::Value::Bool(b) => JsonValue::Bool(*b),
        serde_json::Value::Number(n) => {
            if let Some(u) = n.as_u64() {
                JsonValue::Number(JsonNumber::PosInt(u))
            } else if let Some(i) = n.as_i64() {
                JsonValue::Number(JsonNumber::NegInt(i))
            } else {
                JsonValue::Number(JsonNumber::Float)
            }
        }
        serde_json::Value::String(s) => JsonValue::String(s.clone()),
        serde_json::Value::Array(a) => JsonValue::Array(a.iter().map(from_serde).collect()),
        serde_json::Value::Object(o) => {
            JsonValue::Object(o.iter().map(|(k, x)| (k.clone(), from_serde(x))).collect())
        }
    }
}

fn json(text: &str) -> JsonValue {
    from_serde(&serde_json::from_str(text).unwrap())
}

fn test_state() -> AppState {
    AppState::new(AppConfig::default())
}

fn message(id: u64, channel_id: u64, content: &str) -> CachedMessage {
    CachedMessage {
        id,
        channel_id,
        author_id: 42,
        content: content.to_string(),
        timestamp: "2024-01-01T00:00:00Z".to_string(),
        edited_timestamp: None,
        attachments: vec![],
        embeds: vec![],
        message_reference: None,
        mention_everyone: false,
        mentions: vec![],
        rendered: None,
    }
}

#[test]
fn handle_ready_sets_connected() {
    let mut state = test_state();
    let ready = ReadyEvent {
        session_id: "sess123".to_string(),
        resume_gateway_url: "wss://resume.test".to_string(),
        guilds: vec![],
        private_channels: vec![],
        read_state: vec![],
        relationships: vec![],
        user: json(r#"{"id": "42", "username": "testuser"}"#),
    };
    let (dirty, _) = handle_gateway_event(GatewayEvent::Ready(Box::new(ready)), &mut state, 0);
    assert!(dirty);
    assert!(matches!(state.connection, ConnectionState::Connected { .. }));
    assert_eq!(state.current_user_id, Some(42));
}

#[test]
fn handle_ready_parses_guilds_and_channels() {
    let mut state = test_state();
    let ready = ReadyEvent {
        session_id: "s".to_string(),
        resume_gateway_url: "wss://r".to_string(),
        guilds: vec![json(
            r#"{"id": "1", "name": "Test Server",
                "channels": [
                    {"id": "10", "name": "general", "type": 0, "position": 0},
                    {"id": "20", "name": "random", "type": 0, "position": 1}
                ],
                "roles": [{"id": "100", "name": "Admin", "color": 255, "position": 1}]}"#,
        )],
        private_channels: vec![json(
            r#"{"id": "999", "type": 1, "recipients": [{"id": "50", "username": "friend"}]}"#,
        )],
        read_state: vec![],
        relationships: vec![],
        user: json(r#"{"id": "42", "username": "me"}"#),
    };
    handle_gateway_event(GatewayEvent::Ready(Box::new(ready)), &mut state, 0);
    assert!(state.cache.guilds.contains_key(&1));
    assert!(state.cache.channels.contains_key(&10));
    assert!(state.cache.channels.contains_key(&20));
    assert!(state.cache.channels.contains_key(&999));
    assert!(state.cache.dm_channels.contains(&999));
    assert_eq!(state.cache.channels.get(&999).unwrap().name, "friend");
}

#[test]
fn handle_message_create_caches_message() {
    let mut state = test_state();
    let msg = MessageCreateEvent {
        id: 100,
        channel_id: 10,
        author_id: 42,
        author_name: "testuser".to_string(),
        content: "Hello world".to_string(),
        timestamp: "2024-01-01T00:00:00Z".to_string(),
        mention_everyone: false,
        mentions: vec![],
        raw: json(r#"{"attachments": [], "embeds": []}"#),
    };
    let (dirty, db) = handle_gateway_event(GatewayEvent::MessageCreate(Box::new(msg)), &mut state, 0);
    assert!(dirty);
    let msgs = state.cache.messages.get(&10).unwrap();
    assert_eq!(msgs.len(), 1);
    assert_eq!(msgs[0].content, "Hello world");
    assert!(matches!(db, Some(DbRequest::InsertMessage(_))));
}

#[test]
fn handle_message_update_updates_cache() {
    let mut state = test_state();
    state.cache.insert_message(message(100, 10, "original"));
    let update = MessageUpdateEvent {
        id: 100,
        channel_id: 10,
        content: Some("updated".to_string()),
        edited_timestamp: Some("2024-01-01T01:00:00Z".to_string()),
        raw: json("{}"),
    };
    let (dirty, _) = handle_gateway_event(GatewayEvent::MessageUpdate(Box::new(update)), &mut state, 0);
    assert!(dirty);
    assert_eq!(state.cache.messages.get(&10).unwrap()[0].content, "updated");
}

#[test]
fn handle_message_delete_removes_from_cache() {
    let mut state = test_state();
    state.cache.insert_message(message(100, 10, "to delete"));
    let (dirty, _) = handle_gateway_event(GatewayEvent::MessageDelete { id: 100, channel_id: 10 }, &mut state, 0);
    assert!(dirty);
    assert!(state.cache.messages.get(&10).unwrap().is_empty());
}

#[test]
fn handle_guild_create_caches_guild_and_channels() {
    let mut state = test_state();
    let guild = GuildCreateEvent {
        id: 1,
        name: "New Server".to_string(),
        channels: vec![json(r#"{"id": "10", "name": "general", "type": 0, "position": 0}"#)],
        roles: vec![],
        raw: json("{}"),
    };
    let (dirty, _) = handle_gateway_event(GatewayEvent::GuildCreate(Box::new(guild)), &mut state, 0);
    assert!(dirty);
    assert!(state.cache.guilds.contains_key(&1));
    assert!(state.cache.channels.contains_key(&10));
}

#[test]
fn handle_guild_delete_removes_guild() {
    let mut state = test_state();
    state.cache.insert_guild(CachedGuild { id: 1, name: "Test".to_string(), icon: None, channel_order: vec![], roles: HashMap::new() });
    let (dirty, _) = handle_gateway_event(GatewayEvent::GuildDelete { id: 1 }, &mut state, 0);
    assert!(dirty);
    assert!(!state.cache.guilds.contains_key(&1));
}

#[test]
fn handle_invalid_session_disconnects() {
    let mut state = test_state();
    state.connection = ConnectionState::Connected { session_id: "s".to_string(), resume_url: "wss://r".to_string(), sequence: 10 };
    let (dirty, _) = handle_gateway_event(GatewayEvent::InvalidSession { resumable: false }, &mut state, 0);
    assert!(dirty);
    assert_eq!(state.connection, ConnectionState::Disconnected);
}

#[test]
fn handle_typing_start_tracks_typer() {
    let mut state = test_state();
    let (dirty, _) = handle_gateway_event(
        GatewayEvent::TypingStart { channel_id: 10, user_id: 42, timestamp: 1234567890 },
        &mut state,
        5_000,
    );
    assert!(dirty);
    let typers = state.cache.typing.get(&10).unwrap();
    assert_eq!(typers.len(), 1);
    assert_eq!(typers[0].0, 42);
}

#[test]
fn typing_entries_expire_and_refresh() {
    let mut state = test_state();
    handle_gateway_event(GatewayEvent::TypingStart { channel_id: 10, user_id: 1, timestamp: 0 }, &mut state, 1_000);
    // The same user again: one entry, refreshed.
    handle_gateway_event(GatewayEvent::TypingStart { channel_id: 10, user_id: 1, timestamp: 0 }, &mut state, 2_000);
    assert_eq!(state.cache.typing.get(&10).unwrap().len(), 1);
    // Long after, another user: the first one has expired.
    handle_gateway_event(
        GatewayEvent::TypingStart { channel_id: 10, user_id: 2, timestamp: 0 },
        &mut state,
        2_000 + TYPING_TIMEOUT_MS + 1,
    );
    let typers = state.cache.typing.get(&10).unwrap();
    assert_eq!(typers.iter().map(|t| t.0).collect::<Vec<_>>(), vec![2]);
}

#[test]
fn handle_background_messages_fetched() {
    let mut state = test_state();
    let dirty = handle_background_result(
        BackgroundResult::MessagesFetched { channel_id: 10, messages: vec![message(1, 10, "fetched")] },
        &mut state,
    );
    assert!(dirty);
    assert_eq!(state.cache.messages.get(&10).unwrap().len(), 1);
}

#[test]
fn handle_background_cached_messages_only_when_empty() {
    let mut state = test_state();
    state.cache.insert_message(message(1, 10, "existing"));
    let dirty = handle_background_result(
        BackgroundResult::CachedMessages { channel_id: 10, messages: vec![message(2, 10, "cached")] },
        &mut state,
    );
    assert!(!dirty);
    assert_eq!(state.cache.messages.get(&10).unwrap().len(), 1);
}

#[test]
fn handle_background_http_error() {
    let mut state = test_state();
    let dirty = handle_background_result(
        BackgroundResult::HttpError { request: "SendMessage".to_string(), error: "rate limited".to_string() },
        &mut state,
    );
    assert!(dirty);
    assert!(state.status_error.is_some());
}

#[test]
fn parse_guild_json_basic() {
    let guild = parse_guild_json(&json(
        r#"{"id": "123", "name": "Test Guild", "icon": "abc", "roles": [], "channels": [{"id": "10"}, {"id": "20"}]}"#,
    ))
    .unwrap();
    assert_eq!(guild.id, 123);
    assert_eq!(guild.name, "Test Guild");
    assert_eq!(guild.channel_order.len(), 2);
}

#[test]
fn parse_channel_json_basic() {
    let ch = parse_channel_json(&json(
        r#"{"id": "10", "guild_id": "1", "name": "general", "type": 0, "position": 5, "topic": "Welcome!"}"#,
    ))
    .unwrap();
    assert_eq!(ch.id, 10);
    assert_eq!(ch.guild_id, Some(1));
    assert_eq!(ch.name, "general");
    assert_eq!(ch.position, 5);
    assert_eq!(ch.topic, Some("Welcome!".to_string()));
}

#[test]
fn parse_dm_channel_json_basic() {
    let dm = parse_dm_channel_json(&json(
        r#"{"id": "999", "type": 1, "recipients": [{"id": "50", "username": "friend"}]}"#,
    ))
    .unwrap();
    assert_eq!(dm.id, 999);
    assert_eq!(dm.name, "friend");
    assert!(dm.guild_id.is_none());
}

#[test]
fn channel_type_from_u8_variants() {
    assert_eq!(channel_type_from_u8(0), ChannelType::GuildText);
    assert_eq!(channel_type_from_u8(1), ChannelType::Private);
    assert_eq!(channel_type_from_u8(2), ChannelType::GuildVoice);
    assert_eq!(channel_type_from_u8(4), ChannelType::GuildCategory);
    assert_eq!(channel_type_from_u8(255), ChannelType::GuildText);
}
