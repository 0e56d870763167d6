use base64::Engine;
use discordinator::auth::{
    auth_client_headers, build_qr_auth_heartbeat, build_qr_auth_init, build_qr_auth_nonce_proof,
    delete_token, encrypted_token_of, expand_home_with, interpret_login_response,
    interpret_mfa_response, login_body, mfa_body, parse_qr_auth_message, qr_auth_step,
    qr_heartbeat_interval_ms, remote_auth_login_body, retrieve_token, shellexpand, store_token,
    token_validation_verdict, AuthHeaderError, LoginResponse, QrAuthError, QrAuthMessage,
    QrAuthSession, QrFlowStep, QR_DEFAULT_HEARTBEAT_MS,
};
use discordinator::config::{AuthConfig, DiscordConfig};
use discordinator::event::GatewayEvent;
use discordinator::json::{JsonNumber, JsonValue};
use discordinator::keyring::{MemoryTokenStore, TokenStore};
use rsa::pkcs8::DecodePublicKey;
use sha2::Digest;

fn from_serde(v: &serde_json::Value) -> JsonValue {
    match v {
        serde_json::Value::Null => JsonValue::Null,
        serde_json::Value::Bool(b) => JsonValue::Bool(*b),
        serde_json::Value::Number(n) => {
            if let Some(u) = n.as_u64() {
                JsonValue::Number(JsonNumber::PosInt(u))
            } else if let Some(i) = n.as_i64() {
                JsonValue::Number(JsonNumber::NegInt(i))
            } else {
                JsonValue::Number(JsonNumber::Float)
            }
        }
        serde_json::Value::String(s) => JsonValue::String(s.clone()),
        serde_json::Value::Array(a) => JsonValue::Array(a.iter().map(from_serde).collect()),
        serde_json::Value::Object(o) => {
            JsonValue::Object(o.iter().map(|(k, x)| (k.clone(), from_serde(x))).collect())
        }
    }
}

fn to_serde(v: &JsonValue) -> serde_json::Value {
    match v {
        JsonValue::Null => serde_json::Value::Null,
        JsonValue::Bool(b) => serde_json::Value::Bool(*b),
        JsonValue::Number(JsonNumber::PosInt(n)) => serde_json::Value::from(*n),
        JsonValue::Number(JsonNumber::NegInt(n)) => serde_json::Value::from(*n),
        JsonValue::Number(JsonNumber::Float) => serde_json::Value::Null,
        JsonValue::String(s) => serde_json::Value::String(s.clone()),
        JsonValue::Array(items) => serde_json::Value::Array(items.iter().map(to_serde).collect()),
        JsonValue::Object(entries) => {
            let mut m = serde_json::Map::new();
            for (k, x) in entries {
                m.insert(k.clone(), to_serde(x));
            }
            serde_json::Value::Object(m)
        }
    }
}

fn json(text: &str) -> JsonValue {
    from_serde(&serde_json::from_str(text).unwrap())
}

fn default_auth_config() -> AuthConfig {
    AuthConfig { token_source: "keyring".to_string(), token_file: None }
}

fn test_discord_config() -> DiscordConfig {
    DiscordConfig {
        client_build_number: 346892,
        browser_version: "131.0.0.0".to_string(),
        browser_user_agent: "Mozilla/5.0 Test".to_string(),
    }
}

/// Encrypts bytes to the session's public key, as the phone does.
fn encrypt_for(session: &QrAuthSession, plain: &[u8]) -> String {
    let public_key = rsa::RsaPublicKey::from_public_key_der(session.public_key_der()).unwrap();
    let padding = rsa::Oaep::new::<sha2::Sha256>();
    let mut rng = rand::thread_rng();
    let encrypted = public_key.encrypt(&mut rng, padding, plain).expect("Encryption failed");
    base64::engine::general_purpose::STANDARD.encode(encrypted)
}

#[test]
fn env_var_has_highest_priority() {
    let config = default_auth_config();
    let keyring = MemoryTokenStore::with_token("keyring_token");
    let token = retrieve_token(&config, &keyring, Some("env_token".to_string()), None).unwrap();
    assert_eq!(token.unwrap(), "env_token");
}

#[test]
fn keyring_is_second_priority() {
    let config = default_auth_config();
    let keyring = MemoryTokenStore::with_token("keyring_token");
    let token = retrieve_token(&config, &keyring, None, None).unwrap();
    assert_eq!(token.unwrap(), "keyring_token");
}

#[test]
fn token_file_is_third_priority() {
    let config = AuthConfig { token_source: "file".to_string(), token_file: Some("/tmp/token".to_string()) };
    let keyring = MemoryTokenStore::new();
    let token = retrieve_token(&config, &keyring, None, Some(Ok("file_token\n".to_string()))).unwrap();
    assert_eq!(token.unwrap(), "file_token");
}

#[test]
fn returns_none_when_no_token_found() {
    let config = AuthConfig { token_source: "file".to_string(), token_file: None };
    let keyring = MemoryTokenStore::new();
    assert!(retrieve_token(&config, &keyring, None, None).unwrap().is_none());
}

#[test]
fn env_var_empty_string_is_skipped() {
    let config = default_auth_config();
    let keyring = MemoryTokenStore::with_token("keyring_token");
    let token = retrieve_token(&config, &keyring, Some(String::new()), None).unwrap();
    assert_eq!(token.unwrap(), "keyring_token");
}

#[test]
fn keyring_not_checked_when_source_is_file() {
    let config = AuthConfig { token_source: "file".to_string(), token_file: None };
    let keyring = MemoryTokenStore::with_token("keyring_token");
    assert!(retrieve_token(&config, &keyring, None, None).unwrap().is_none());
}

#[test]
fn store_token_in_keyring() {
    let mut keyring = MemoryTokenStore::new();
    store_token(&mut keyring, "new_token_123").unwrap();
    assert_eq!(keyring.get_token().unwrap().unwrap(), "new_token_123");
}

#[test]
fn delete_token_from_keyring() {
    let mut keyring = MemoryTokenStore::with_token("token_to_delete");
    delete_token(&mut keyring).unwrap();
    assert!(keyring.get_token().unwrap().is_none());
}

#[test]
fn token_file_is_trimmed() {
    let config = AuthConfig { token_source: "file".to_string(), token_file: Some("/tmp/token".to_string()) };
    let keyring = MemoryTokenStore::new();
    let token = retrieve_token(&config, &keyring, None, Some(Ok("  trimmed_token  \n\n".to_string()))).unwrap();
    assert_eq!(token.unwrap(), "trimmed_token");
}

#[test]
fn nonexistent_token_file_returns_none() {
    let config = AuthConfig {
        token_source: "file".to_string(),
        token_file: Some("/nonexistent/path/token".to_string()),
    };
    let keyring = MemoryTokenStore::new();
    assert!(retrieve_token(&config, &keyring, None, None).unwrap().is_none());
}

#[test]
fn unreadable_token_file_is_an_error() {
    let config = AuthConfig { token_source: "file".to_string(), token_file: Some("/tmp/t".to_string()) };
    let keyring = MemoryTokenStore::new();
    let err = retrieve_token(&config, &keyring, None, Some(Err("denied".to_string()))).unwrap_err();
    assert_eq!(err, "Failed to read token file: denied");
    // A blank file holds no token.
    assert!(retrieve_token(&config, &keyring, None, Some(Ok(" \n".to_string()))).unwrap().is_none());
}

#[test]
fn shellexpand_expands_tilde() {
    let expanded = shellexpand("~/test/path");
    assert!(!expanded.starts_with("~/"));
    assert!(expanded.ends_with("test/path"));
}

#[test]
fn shellexpand_leaves_absolute_path() {
    assert_eq!(shellexpand("/absolute/path"), "/absolute/path");
}

#[test]
fn home_expansion_with_given_home() {
    assert_eq!(expand_home_with("~/a/b", Some("/home/u".to_string())), "/home/u/a/b");
    assert_eq!(expand_home_with("~/a", None), "~/a");
    assert_eq!(expand_home_with("~user/a", Some("/home/u".to_string())), "~user/a");
}

#[test]
fn priority_env_over_keyring_over_file() {
    let config = AuthConfig { token_source: "keyring".to_string(), token_file: Some("/tmp/token".to_string()) };
    let keyring = MemoryTokenStore::with_token("keyring_token");
    let file = || Some(Ok("file_token".to_string()));
    let token = retrieve_token(&config, &keyring, Some("env_token".to_string()), file()).unwrap();
    assert_eq!(token.unwrap(), "env_token");
    let token = retrieve_token(&config, &keyring, None, file()).unwrap();
    assert_eq!(token.unwrap(), "keyring_token");
    let empty_keyring = MemoryTokenStore::new();
    let token = retrieve_token(&config, &empty_keyring, None, file()).unwrap();
    assert_eq!(token.unwrap(), "file_token");
}

#[test]
fn login_sends_correct_body() {
    let body = to_serde(&login_body("test@example.com", "mypassword"));
    assert_eq!(body["login"], "test@example.com");
    assert_eq!(body["password"], "mypassword");
    assert_eq!(body["undelete"], false);
    assert!(body["login_source"].is_null());
    assert!(body["gift_code_sku_id"].is_null());
}

#[test]
fn login_responses() {
    assert!(matches!(
        interpret_login_response(true, &json(r#"{"token": "abc"}"#)),
        Ok(LoginResponse::Token(t)) if t == "abc"
    ));
    assert!(matches!(
        interpret_login_response(true, &json(r#"{"token": null, "ticket": "tk", "mfa": true}"#)),
        Ok(LoginResponse::MfaRequired { ticket }) if ticket == "tk"
    ));
    assert!(matches!(
        interpret_login_response(true, &json(r#"{"token": "null", "ticket": "tk"}"#)),
        Ok(LoginResponse::MfaRequired { .. })
    ));
    assert_eq!(
        interpret_login_response(false, &json(r#"{"message": "Invalid Form Body"}"#)).unwrap_err(),
        "Invalid Form Body"
    );
    assert_eq!(interpret_login_response(false, &json("{}")).unwrap_err(), "Login failed");
    assert_eq!(interpret_login_response(true, &json("{}")).unwrap_err(), "Unexpected login response");
}

#[test]
fn mfa_requests_and_responses() {
    let body = to_serde(&mfa_body("ticket1", "123456"));
    assert_eq!(body["code"], "123456");
    assert_eq!(body["ticket"], "ticket1");
    assert_eq!(interpret_mfa_response(true, &json(r#"{"token": "t"}"#)).unwrap(), "t");
    assert_eq!(interpret_mfa_response(false, &json("{}")).unwrap_err(), "MFA verification failed");
    assert_eq!(interpret_mfa_response(false, &json(r#"{"message": "Invalid two-factor code"}"#)).unwrap_err(), "Invalid two-factor code");
    assert_eq!(interpret_mfa_response(true, &json("{}")).unwrap_err(), "No token in MFA response");
}

#[test]
fn auth_headers() {
    let headers = auth_client_headers(&test_discord_config(), "e30=").unwrap();
    let pairs: Vec<(String, String)> = headers.into_iter().map(|h| (h.name, h.value)).collect();
    assert_eq!(
        pairs,
        vec![
            ("User-Agent".to_string(), "Mozilla/5.0 Test".to_string()),
            ("X-Super-Properties".to_string(), "e30=".to_string()),
            ("X-Discord-Locale".to_string(), "en-US".to_string()),
        ]
    );
    let bad = DiscordConfig { browser_user_agent: "a\nb".to_string(), ..test_discord_config() };
    assert_eq!(auth_client_headers(&bad, "e30=").unwrap_err(), AuthHeaderError::InvalidUserAgent);
    assert_eq!(
        auth_client_headers(&test_discord_config(), "x\ny").unwrap_err(),
        AuthHeaderError::InvalidSuperProperties
    );
}

#[test]
fn token_check_verdicts() {
    let hello = GatewayEvent::Hello { heartbeat_interval: 1 };
    assert_eq!(token_validation_verdict(&hello, &GatewayEvent::Reconnect), Some(false));
    assert_eq!(token_validation_verdict(&GatewayEvent::HeartbeatAck, &GatewayEvent::Reconnect), None);
}

#[test]
fn qr_auth_session_generates_keypair() {
    let session = QrAuthSession::new().unwrap();
    assert!(!session.encoded_public_key().is_empty());
    assert!(!session.fingerprint.is_empty());
}

#[test]
fn qr_auth_session_fingerprint_is_base64() {
    let session = QrAuthSession::new().unwrap();
    let decoded = base64::engine::general_purpose::STANDARD.decode(&session.fingerprint);
    assert!(decoded.is_ok(), "Fingerprint should be valid base64");
    let decoded = decoded.unwrap();
    assert_eq!(decoded.len(), 32);
    // It is the SHA-256 of the public key.
    assert_eq!(decoded, sha2::Sha256::digest(session.public_key_der()).to_vec());
}

#[test]
fn qr_auth_session_qr_url_format() {
    let session = QrAuthSession::new().unwrap();
    let url = session.qr_url();
    assert!(url.starts_with("https://discord.com/ra/"));
    assert!(url.len() > "https://discord.com/ra/".len());
    assert_eq!(url, format!("https://discord.com/ra/{}", session.fingerprint));
}

#[test]
fn qr_auth_session_encrypt_decrypt_roundtrip() {
    let session = QrAuthSession::new().unwrap();
    let encrypted_b64 = encrypt_for(&session, b"test_token_abc123");
    assert_eq!(session.decrypt_payload(&encrypted_b64).unwrap(), "test_token_abc123");
}

#[test]
fn qr_auth_session_nonce_proof_computation() {
    let session = QrAuthSession::new().unwrap();
    let nonce = b"test_nonce_value";
    let encrypted_b64 = encrypt_for(&session, nonce);
    let proof = session.compute_nonce_proof(&encrypted_b64).unwrap();
    let decoded_proof = base64::engine::general_purpose::STANDARD.decode(&proof).unwrap();
    assert_eq!(decoded_proof.len(), 32, "SHA-256 hash should be 32 bytes");
    assert_eq!(decoded_proof, sha2::Sha256::digest(nonce).to_vec());
}

#[test]
fn qr_auth_errors() {
    let session = QrAuthSession::new().unwrap();
    assert_eq!(session.decrypt_payload("not base64!").unwrap_err(), QrAuthError::Base64);
    assert_eq!(session.compute_nonce_proof("%%%").unwrap_err(), QrAuthError::Base64);
    let garbage = base64::engine::general_purpose::STANDARD.encode([1u8, 2, 3]);
    assert_eq!(session.decrypt_payload(&garbage).unwrap_err(), QrAuthError::Decryption);
}

#[test]
fn qr_auth_generates_qr_lines() {
    let session = QrAuthSession::new().unwrap();
    let lines = session.generate_qr_lines().unwrap();
    assert!(!lines.is_empty(), "QR code should produce lines");
    assert!(lines.len() > 5, "QR code should have multiple rows");
    let first_width = lines[0].chars().count();
    for (i, l) in lines.iter().enumerate() {
        assert_eq!(l.chars().count(), first_width, "Line {i} differs in width");
    }
}

#[test]
fn qr_auth_encoded_public_key_is_valid_base64() {
    let session = QrAuthSession::new().unwrap();
    let decoded = base64::engine::general_purpose::STANDARD.decode(session.encoded_public_key());
    assert!(decoded.is_ok(), "Encoded public key should be valid base64");
    let decoded = decoded.unwrap();
    assert!(decoded.len() > 200);
    assert_eq!(&decoded, session.public_key_der());
}

#[test]
fn qr_auth_two_sessions_have_different_keys() {
    let session1 = QrAuthSession::new().unwrap();
    let session2 = QrAuthSession::new().unwrap();
    assert_ne!(session1.fingerprint, session2.fingerprint);
}

#[test]
fn build_qr_auth_init_message() {
    let msg = to_serde(&build_qr_auth_init("test_key_base64"));
    assert_eq!(msg["op"], "init");
    assert_eq!(msg["encoded_public_key"], "test_key_base64");
}

#[test]
fn build_qr_auth_nonce_proof_message() {
    let msg = to_serde(&build_qr_auth_nonce_proof("proof_base64"));
    assert_eq!(msg["op"], "nonce_proof");
    assert_eq!(msg["proof"], "proof_base64");
}

#[test]
fn build_qr_auth_heartbeat_message() {
    let msg = to_serde(&build_qr_auth_heartbeat());
    assert_eq!(msg["op"], "heartbeat");
}

#[test]
fn parse_qr_auth_hello() {
    let msg = parse_qr_auth_message(&json(r#"{"op": "hello", "heartbeat_interval": 41250, "timeout_ms": 120000}"#));
    assert_eq!(msg, QrAuthMessage::Hello { heartbeat_interval: 41250, timeout_ms: 120000 });
}

#[test]
fn parse_qr_auth_nonce_proof() {
    let msg = parse_qr_auth_message(&json(r#"{"op": "nonce_proof", "encrypted_nonce": "encrypted_nonce_base64"}"#));
    assert_eq!(msg, QrAuthMessage::NonceProof { encrypted_nonce: "encrypted_nonce_base64".to_string() });
}

#[test]
fn parse_qr_auth_pending_remote_init() {
    let msg = parse_qr_auth_message(&json(r#"{"op": "pending_remote_init", "fingerprint": "fp_abc123"}"#));
    assert_eq!(msg, QrAuthMessage::PendingRemoteInit { fingerprint: "fp_abc123".to_string() });
}

#[test]
fn parse_qr_auth_pending_login() {
    let msg = parse_qr_auth_message(&json(r#"{"op": "pending_login", "ticket": "ticket_xyz789"}"#));
    assert_eq!(msg, QrAuthMessage::PendingLogin { ticket: "ticket_xyz789".to_string() });
}

#[test]
fn parse_qr_auth_cancel() {
    assert_eq!(parse_qr_auth_message(&json(r#"{"op": "cancel"}"#)), QrAuthMessage::Cancel);
}

#[test]
fn parse_qr_auth_unknown_op() {
    assert_eq!(
        parse_qr_auth_message(&json(r#"{"op": "something_new"}"#)),
        QrAuthMessage::Unknown { op: "something_new".to_string() }
    );
}

#[test]
fn qr_flow_steps() {
    let session = QrAuthSession::new().unwrap();
    // A nonce challenge is answered with its proof.
    let nonce = b"nonce!";
    let step = qr_auth_step(&session, &QrAuthMessage::NonceProof { encrypted_nonce: encrypt_for(&session, nonce) }).unwrap();
    match step {
        QrFlowStep::Send(m) => {
            let m = to_serde(&m);
            assert_eq!(m["op"], "nonce_proof");
            let expected = base64::engine::general_purpose::STANDARD.encode(sha2::Sha256::digest(nonce));
            assert_eq!(m["proof"], expected.as_str());
        }
        other => panic!("expected a proof, got {other:?}"),
    }
    assert!(matches!(
        qr_auth_step(&session, &QrAuthMessage::PendingLogin { ticket: "t".to_string() }),
        Ok(QrFlowStep::ExchangeTicket(t)) if t == "t"
    ));
    assert!(matches!(qr_auth_step(&session, &QrAuthMessage::Cancel), Ok(QrFlowStep::Cancelled)));
    assert!(matches!(
        qr_auth_step(&session, &QrAuthMessage::PendingRemoteInit { fingerprint: "f".to_string() }),
        Ok(QrFlowStep::Wait)
    ));
    assert!(matches!(
        qr_auth_step(&session, &QrAuthMessage::PendingTicket { encrypted_user_payload: encrypt_for(&session, b"user") }),
        Ok(QrFlowStep::Wait)
    ));
    assert_eq!(
        qr_auth_step(&session, &QrAuthMessage::PendingTicket { encrypted_user_payload: "!!".to_string() }).unwrap_err(),
        QrAuthError::Base64
    );
}

#[test]
fn qr_heartbeat_interval_defaults() {
    assert_eq!(qr_heartbeat_interval_ms(&QrAuthMessage::Hello { heartbeat_interval: 500, timeout_ms: 1 }), 500);
    assert_eq!(qr_heartbeat_interval_ms(&QrAuthMessage::Cancel), QR_DEFAULT_HEARTBEAT_MS);
}

#[test]
fn remote_auth_ticket_exchange() {
    assert_eq!(to_serde(&remote_auth_login_body("tk"))["ticket"], "tk");
    assert_eq!(encrypted_token_of(&json(r#"{"encrypted_token": "abc"}"#)), Some("abc".to_string()));
    assert_eq!(encrypted_token_of(&json(r#"{"encrypted_token": 5}"#)), None);
}

#[test]
fn memory_store_get_set_delete() {
    let mut store = MemoryTokenStore::new();
    assert!(store.get_token().unwrap().is_none());
    store.set_token("test_token_123").unwrap();
    assert_eq!(store.get_token().unwrap().unwrap(), "test_token_123");
    store.delete_token().unwrap();
    assert!(store.get_token().unwrap().is_none());
}

#[test]
fn memory_store_with_initial_token() {
    let store = MemoryTokenStore::with_token("initial_token");
    assert_eq!(store.get_token().unwrap().unwrap(), "initial_token");
}

#[test]
fn memory_store_overwrite_token() {
    let mut store = MemoryTokenStore::with_token("first");
    store.set_token("second").unwrap();
    assert_eq!(store.get_token().unwrap().unwrap(), "second");
}

#[test]
fn memory_store_delete_when_empty_is_ok() {
    let mut store = MemoryTokenStore::new();
    store.delete_token().unwrap();
}

#[test]
fn nonce_proof_is_base64_of_sha256() {
    assert_eq!(
        discordinator::auth::nonce_proof_of(b"abc"),
        "ungWv48Bz+pBQUDeXa4iI7ADYaOWF3qctBD/YfIAFa0="
    );
}

#[test]
fn payload_text_reads_utf8_only() {
    assert_eq!(discordinator::auth::payload_text(b"tok".to_vec()), Ok("tok".to_string()));
    assert_eq!(
        discordinator::auth::payload_text(vec![0xff, 0xfe]),
        Err(discordinator::auth::QrAuthError::NotUtf8)
    );
}

#[test]
fn nonce_proof_of_bad_base64_is_base64_error() {
    let session = discordinator::auth::QrAuthSession::new().unwrap();
    assert_eq!(
        session.compute_nonce_proof("not base64!!"),
        Err(discordinator::auth::QrAuthError::Base64)
    );
    assert_eq!(
        session.compute_nonce_proof("AAAA"),
        Err(discordinator::auth::QrAuthError::Decryption)
    );
}
