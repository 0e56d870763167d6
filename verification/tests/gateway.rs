use discordinator::config::DiscordConfig;
use discordinator::event::GatewayEvent;
use discordinator::gateway::{
    build_heartbeat_payload, build_identify_payload, build_resume_payload, compute_backoff,
    ConnectPlan, ConnectionStep, ConnectionTracker, GatewayManager, ReconnectAction, SessionInfo,
    ZlibDecompressor, GATEWAY_URL, INITIAL_BACKOFF_SECS, MAX_BACKOFF_SECS,
};
use discordinator::json::{JsonNumber, JsonValue};
use flate2::write::ZlibEncoder;
use flate2::Compression;
use std::io::Write;

fn to_serde(v: &JsonValue) -> serde_json::Value {
    match v {
        JsonValue::Null => serde_json::Value::Null,
        JsonValue::Bool(b) => serde_json::Value::Bool(*b),
        JsonValue::Number(JsonNumber::PosInt(n)) => serde_json::Value::from(*n),
        JsonValue::Number(JsonNumber::NegInt(n)) => serde_json::Value::from(*n),
        JsonValue::Number(JsonNumber::Float) => serde_json::Value::Null,
        JsonValue::String(s) => serde_json::Value::String(s.clone()),
        JsonValue::Array(items) => serde_json::Value::Array(items.iter().map(to_serde).collect()),
        JsonValue::Object(entries) => {
            let mut m = serde_json::Map::new();
            for (k, x) in entries {
                m.insert(k.clone(), to_serde(x));
            }
            serde_json::Value::Object(m)
        }
    }
}

fn from_serde(v: &serde_json::Value) -> JsonValue {
    match v {
        serde_json::Value::Null => JsonValue::Null,
        serde_json::Value::Bool(b) => JsonValue::Bool(*b),
        serde_json::Value::Number(n) => {
            if let Some(u) = n.as_u64() {
                JsonValue::Number(JsonNumber::PosInt(u))
            } else if let Some(i) = n.as_i64() {
                JsonValue::Number(JsonNumber::NegInt(i))
            } else {
                JsonValue::Number(JsonNumber::Float)
            }
        }
        serde_json::Value::String(s) => JsonValue::String(s.clone()),
        serde_json::Value::Array(a) => JsonValue::Array(a.iter().map(from_serde).collect()),
        serde_json::Value::Object(o) => {
            JsonValue::Object(o.iter().map(|(k, x)| (k.clone(), from_serde(x))).collect())
        }
    }
}

fn payload(text: &str) -> JsonValue {
    from_serde(&serde_json::from_str(text).unwrap())
}

fn compress(text: &str) -> Vec<u8> {
    let mut encoder = ZlibEncoder::new(Vec::new(), Compression::default());
    encoder.write_all(text.as_bytes()).unwrap();
    encoder.flush_finish().unwrap()
}

#[test]
fn resume_payload_has_correct_structure() {
    let p = to_serde(&build_resume_payload("test_token", "session_abc", 42));
    assert_eq!(p["op"], 6);
    assert_eq!(p["d"]["token"], "test_token");
    assert_eq!(p["d"]["session_id"], "session_abc");
    assert_eq!(p["d"]["seq"], 42);
}

#[test]
fn heartbeat_payload_with_sequence() {
    let p = to_serde(&build_heartbeat_payload(Some(42)));
    assert_eq!(p["op"], 1);
    assert_eq!(p["d"], 42);
}

#[test]
fn heartbeat_payload_without_sequence() {
    let p = to_serde(&build_heartbeat_payload(None));
    assert_eq!(p["op"], 1);
    assert!(p["d"].is_null());
}

#[test]
fn identify_payload_has_correct_structure() {
    let config = DiscordConfig {
        client_build_number: 346892,
        browser_version: "131.0.0.0".to_string(),
        browser_user_agent: "Mozilla/5.0 Test".to_string(),
    };
    let payload = to_serde(&build_identify_payload("test_token", &config));

    assert_eq!(payload["op"], 2);
    assert_eq!(payload["d"]["token"], "test_token");
    assert_eq!(payload["d"]["properties"]["os"], "Mac OS X");
    assert_eq!(payload["d"]["properties"]["browser"], "Chrome");
    assert_eq!(payload["d"]["properties"]["client_build_number"], 346892);
    assert_eq!(payload["d"]["large_threshold"], 250);

    assert!(
        payload["d"]["intents"].is_null(),
        "User account IDENTIFY must NOT have intents field"
    );
}

#[test]
fn identify_payload_uses_config_values() {
    let config = DiscordConfig {
        client_build_number: 999999,
        browser_version: "200.0.0.0".to_string(),
        browser_user_agent: "Custom/1.0".to_string(),
    };
    let payload = to_serde(&build_identify_payload("token", &config));
    assert_eq!(payload["d"]["properties"]["client_build_number"], 999999);
    assert_eq!(payload["d"]["properties"]["browser_version"], "200.0.0.0");
    assert_eq!(payload["d"]["properties"]["browser_user_agent"], "Custom/1.0");
}

#[test]
fn zlib_decompressor_decompresses_complete_message() {
    let original = r#"{"op":10,"d":{"heartbeat_interval":41250}}"#;
    let compressed = compress(original);
    let mut decompressor = ZlibDecompressor::new();
    let result = decompressor.decompress(&compressed).unwrap();
    assert!(result.is_some());
    assert_eq!(result.unwrap(), original);
}

#[test]
fn zlib_decompressor_buffers_partial_data() {
    let mut decompressor = ZlibDecompressor::new();
    let partial = vec![0x78, 0x9C, 0x01, 0x02];
    let result = decompressor.decompress(&partial).unwrap();
    assert!(result.is_none(), "Should return None for partial data");
}

#[test]
fn zlib_decompressor_resets_after_complete_message() {
    let msg1 = r#"{"op":10,"d":{"heartbeat_interval":41250}}"#;
    let msg2 = r#"{"op":11,"d":null}"#;
    let compressed1 = compress(msg1);
    let compressed2 = compress(msg2);
    let mut decompressor = ZlibDecompressor::new();
    let result1 = decompressor.decompress(&compressed1).unwrap();
    assert_eq!(result1.unwrap(), msg1);
    let result2 = decompressor.decompress(&compressed2).unwrap();
    assert_eq!(result2.unwrap(), msg2);
}

#[test]
fn zlib_decompressor_joins_split_frames() {
    let msg = r#"{"op":11,"d":null}"#;
    let compressed = compress(msg);
    let (a, b) = compressed.split_at(compressed.len() / 2);
    let mut decompressor = ZlibDecompressor::new();
    assert!(decompressor.decompress(a).unwrap().is_none());
    assert_eq!(decompressor.decompress(b).unwrap().unwrap(), msg);
}

#[test]
fn zlib_decompressor_rejects_garbage_with_suffix() {
    let mut decompressor = ZlibDecompressor::new();
    assert!(decompressor.decompress(&[1, 2, 3, 0x00, 0x00, 0xFF, 0xFF]).is_err());
}

#[test]
fn exponential_backoff_grows_correctly() {
    assert_eq!(compute_backoff(1), 2);
    assert_eq!(compute_backoff(2), 4);
    assert_eq!(compute_backoff(4), 8);
    assert_eq!(compute_backoff(8), 16);
    assert_eq!(compute_backoff(16), MAX_BACKOFF_SECS); // 32 > 30, capped
    assert_eq!(compute_backoff(30), MAX_BACKOFF_SECS); // 60 > 30, capped
}

#[test]
fn gateway_manager_initial_state() {
    let manager = GatewayManager::new("token".to_string(), DiscordConfig::default());
    assert!(manager.session().is_none());
    assert_eq!(manager.backoff_secs(), INITIAL_BACKOFF_SECS);
}

#[test]
fn gateway_manager_reconnect_action_no_session() {
    let manager = GatewayManager::new("token".to_string(), DiscordConfig::default());
    assert_eq!(manager.determine_reconnect_action(false), ReconnectAction::Reconnect);
}

#[test]
fn gateway_manager_reconnect_action_with_session() {
    let mut manager = GatewayManager::new("token".to_string(), DiscordConfig::default());
    manager.set_session(SessionInfo {
        session_id: Some("test_session".to_string()),
        resume_url: Some("wss://resume.example.com".to_string()),
        sequence: Some(42),
    });
    assert_eq!(manager.determine_reconnect_action(false), ReconnectAction::Resume);
}

#[test]
fn gateway_manager_reconnect_action_stop_when_channel_closed() {
    let manager = GatewayManager::new("token".to_string(), DiscordConfig::default());
    assert_eq!(manager.determine_reconnect_action(true), ReconnectAction::Stop);
}

#[test]
fn gateway_manager_reset_backoff() {
    let mut manager = GatewayManager::new("token".to_string(), DiscordConfig::default());
    // Failed connections double the delay.
    for _ in 0..4 {
        manager.after_connection(None, false);
    }
    assert_eq!(manager.backoff_secs(), 16);
    manager.reset_backoff();
    assert_eq!(manager.backoff_secs(), INITIAL_BACKOFF_SECS);
}

#[test]
fn gateway_manager_session_info_incomplete_forces_reconnect() {
    let mut manager = GatewayManager::new("token".to_string(), DiscordConfig::default());
    manager.set_session(SessionInfo {
        session_id: Some("test".to_string()),
        resume_url: None,
        sequence: None,
    });
    assert_eq!(manager.determine_reconnect_action(false), ReconnectAction::Reconnect);
}

#[test]
fn gateway_manager_backoff_caps_and_resets_on_success() {
    let mut manager = GatewayManager::new("token".to_string(), DiscordConfig::default());
    let mut delays = Vec::new();
    for _ in 0..7 {
        let (action, delay) = manager.after_connection(None, false);
        assert_eq!(action, ReconnectAction::Reconnect);
        delays.push(delay);
    }
    assert_eq!(delays, vec![1, 2, 4, 8, 16, 30, 30]);
    let (action, delay) = manager.after_connection(
        Some(SessionInfo {
            session_id: Some("s".to_string()),
            resume_url: Some("wss://r".to_string()),
            sequence: Some(9),
        }),
        false,
    );
    assert_eq!(action, ReconnectAction::Resume);
    assert_eq!(delay, INITIAL_BACKOFF_SECS);
    match manager.connect_plan() {
        ConnectPlan::Resume { url, session_id, sequence } => {
            assert_eq!(url, "wss://r");
            assert_eq!(session_id, "s");
            assert_eq!(sequence, 9);
        }
        other => panic!("expected a resume, got {other:?}"),
    }
    // Nobody listens and no session: stop.
    let mut lonely = GatewayManager::new("token".to_string(), DiscordConfig::default());
    assert_eq!(lonely.after_connection(None, true).0, ReconnectAction::Stop);
}

#[test]
fn fresh_connection_plan_uses_gateway_url() {
    let manager = GatewayManager::new("token".to_string(), DiscordConfig::default());
    match manager.connect_plan() {
        ConnectPlan::Fresh { url } => assert_eq!(url, GATEWAY_URL),
        other => panic!("expected a fresh connect, got {other:?}"),
    }
}

#[test]
fn tracker_identifies_on_hello_and_records_ready() {
    let config = DiscordConfig::default();
    let mut t = ConnectionTracker::fresh();
    let (event, step) = t.on_payload(
        &payload(r#"{"op":10,"d":{"heartbeat_interval":41250},"s":null}"#),
        "tok",
        &config,
    );
    assert!(matches!(event, GatewayEvent::Hello { heartbeat_interval: 41250 }));
    match step {
        ConnectionStep::Identify { payload, heartbeat_interval_ms } => {
            assert_eq!(heartbeat_interval_ms, 41250);
            let p = to_serde(&payload);
            assert_eq!(p["op"], 2);
            assert_eq!(p["d"]["token"], "tok");
        }
        other => panic!("expected identify, got {other:?}"),
    }
    let ready = r#"{"op":0,"t":"READY","s":1,"d":{"session_id":"sess","resume_gateway_url":"wss://resume","user":{"id":"5","username":"me"},"guilds":[],"private_channels":[]}}"#;
    let (event, step) = t.on_payload(&payload(ready), "tok", &config);
    assert!(matches!(event, GatewayEvent::Ready(_)));
    assert!(matches!(step, ConnectionStep::StartHeartbeat { interval_ms: 41250 }));
    let info = t.session_info();
    assert_eq!(info.session_id.as_deref(), Some("sess"));
    assert_eq!(info.resume_url.as_deref(), Some("wss://resume"));
    assert_eq!(info.sequence, Some(1));
}

#[test]
fn tracker_resumes_on_hello() {
    let config = DiscordConfig::default();
    let mut t = ConnectionTracker::resuming("sess", 42);
    let (_, step) = t.on_payload(&payload(r#"{"op":10,"d":{"heartbeat_interval":1000}}"#), "tok", &config);
    match step {
        ConnectionStep::Resume { payload, heartbeat_interval_ms } => {
            assert_eq!(heartbeat_interval_ms, 1000);
            let p = to_serde(&payload);
            assert_eq!(p["op"], 6);
            assert_eq!(p["d"]["session_id"], "sess");
            assert_eq!(p["d"]["seq"], 42);
        }
        other => panic!("expected resume, got {other:?}"),
    }
    let (event, step) = t.on_payload(&payload(r#"{"op":0,"t":"RESUMED","s":43,"d":{}}"#), "tok", &config);
    assert!(matches!(event, GatewayEvent::Resumed));
    assert!(matches!(step, ConnectionStep::Forward));
    assert_eq!(t.sequence, Some(43));
}

#[test]
fn tracker_keeps_last_ready_and_last_sequence_over_a_connection() {
    let config = DiscordConfig::default();
    let mut t = ConnectionTracker::fresh();
    let frames = [
        r#"{"op":10,"d":{"heartbeat_interval":1000}}"#,
        r#"{"op":0,"t":"READY","s":1,"d":{"session_id":"first","resume_gateway_url":"wss://one","user":{"id":"5","username":"me"},"guilds":[],"private_channels":[]}}"#,
        r#"{"op":0,"t":"TYPING_START","s":2,"d":{"channel_id":"1","user_id":"2"}}"#,
        r#"{"op":0,"t":"READY","s":3,"d":{"session_id":"second","resume_gateway_url":"wss://two","user":{"id":"5","username":"me"},"guilds":[],"private_channels":[]}}"#,
        r#"{"op":11}"#,
        r#"{"op":0,"t":"TYPING_START","s":7,"d":{"channel_id":"1","user_id":"2"}}"#,
        r#"{"op":11,"s":null}"#,
    ];
    for f in frames {
        t.on_payload(&payload(f), "tok", &config);
    }
    let info = t.session_info();
    assert_eq!(info.session_id.as_deref(), Some("second"));
    assert_eq!(info.resume_url.as_deref(), Some("wss://two"));
    assert_eq!(info.sequence, Some(7));
}
