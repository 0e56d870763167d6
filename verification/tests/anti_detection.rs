use base64::Engine;
use discordinator::anti_detection::{
    build_http_headers, build_identify_properties, build_ws_request, detect_os_from_ua,
    encode_super_properties, timezone_or_default, valid_header_value, Header,
};
use discordinator::config::DiscordConfig;
use discordinator::gateway::identify_properties_json;
use discordinator::json::{JsonNumber, JsonValue};

fn test_config() -> DiscordConfig {
    DiscordConfig {
        client_build_number: 346892,
        browser_version: "131.0.0.0".to_string(),
        browser_user_agent: "Mozilla/5.0 (Macintosh; Intel Mac OS X 10_15_7) AppleWebKit/537.36 (KHTML, like Gecko) Chrome/131.0.0.0 Safari/537.36".to_string(),
        ..Default::default()
    }
}

fn to_serde(v: &JsonValue) -> serde_json::Value {
    match v {
        JsonValue::Null => serde_json::Value::Null,
        JsonValue::Bool(b) => serde_json::Value::Bool(*b),
        JsonValue::Number(JsonNumber::PosInt(n)) => serde_json::Value::from(*n),
        JsonValue::Number(JsonNumber::NegInt(n)) => serde_json::Value::from(*n),
        JsonValue::Number(JsonNumber::Float) => serde_json::Value::Null,
        JsonValue::String(s) => serde_json::Value::String(s.clone()),
        JsonValue::Array(items) => serde_json::Value::Array(items.iter().map(to_serde).collect()),
        JsonValue::Object(entries) => {
            let mut m = serde_json::Map::new();
            for (k, x) in entries {
                m.insert(k.clone(), to_serde(x));
            }
            serde_json::Value::Object(m)
        }
    }
}

fn super_properties(config: &DiscordConfig) -> String {
    let props = build_identify_properties(config);
    let json = serde_json::to_string(&to_serde(&identify_properties_json(&props))).unwrap();
    encode_super_properties(&json)
}

fn header<'a>(headers: &'a [Header], name: &str) -> Option<&'a str> {
    headers.iter().find(|h| h.name == name).map(|h| h.value.as_str())
}

fn web_headers(config: &DiscordConfig, token: &str) -> Vec<Header> {
    build_http_headers(config, token, &super_properties(config), "America/New_York").unwrap()
}

#[test]
fn identify_properties_match_web_client_format() {
    let config = test_config();
    let props = build_identify_properties(&config);

    let (expected_os, expected_os_version, _) = detect_os_from_ua(&config.browser_user_agent);
    assert_eq!(props.os, expected_os);
    assert_eq!(props.browser, "Chrome");
    assert_eq!(props.device, "");
    assert_eq!(props.system_locale, "en-US");
    assert_eq!(props.browser_user_agent, config.browser_user_agent);
    assert_eq!(props.browser_version, "131.0.0.0");
    assert_eq!(props.os_version, expected_os_version);
    assert_eq!(props.referrer, "");
    assert_eq!(props.referring_domain, "");
    assert_eq!(props.referrer_current, "");
    assert_eq!(props.referring_domain_current, "");
    assert_eq!(props.release_channel, "stable");
    assert_eq!(props.client_build_number, 346892);
}

#[test]
fn identify_properties_serializes_to_valid_json() {
    let config = test_config();
    let props = build_identify_properties(&config);
    let json = to_serde(&identify_properties_json(&props));

    assert_eq!(json["os"], "Mac OS X");
    assert_eq!(json["browser"], "Chrome");
    assert_eq!(json["device"], "");
    assert_eq!(json["systemLocale"], "en-US");
    assert_eq!(json["browserVersion"], "131.0.0.0");
    assert_eq!(json["osVersion"], "10.15.7");
    assert_eq!(json["releaseChannel"], "stable");
    assert_eq!(json["clientBuildNumber"], 346892);

    let obj = json.as_object().unwrap();
    assert_eq!(obj.len(), 14);
}

#[test]
fn identify_properties_uses_camel_case_field_names() {
    let config = test_config();
    let props = build_identify_properties(&config);
    let json = to_serde(&identify_properties_json(&props));
    let obj = json.as_object().unwrap();

    for key in [
        "systemLocale",
        "browserUserAgent",
        "browserVersion",
        "osVersion",
        "referringDomain",
        "referrerCurrent",
        "referringDomainCurrent",
        "releaseChannel",
        "clientBuildNumber",
        "clientEventSource",
    ] {
        assert!(obj.contains_key(key), "expected camelCase '{key}'");
    }
    assert!(!obj.contains_key("system_locale"));
    assert!(!obj.contains_key("browser_user_agent"));
    assert!(!obj.contains_key("client_build_number"));
}

#[test]
fn identify_properties_uses_config_values() {
    let config = DiscordConfig {
        client_build_number: 999999,
        browser_version: "200.0.0.0".to_string(),
        browser_user_agent: "CustomAgent/1.0".to_string(),
        ..Default::default()
    };
    let props = build_identify_properties(&config);

    assert_eq!(props.client_build_number, 999999);
    assert_eq!(props.browser_version, "200.0.0.0");
    assert_eq!(props.browser_user_agent, "CustomAgent/1.0");
}

#[test]
fn super_properties_is_valid_base64_encoded_json() {
    let config = test_config();
    let encoded = super_properties(&config);

    let decoded_bytes = base64::engine::general_purpose::STANDARD
        .decode(&encoded)
        .expect("X-Super-Properties must be valid base64");
    let json_str = String::from_utf8(decoded_bytes).expect("Must be valid UTF-8");
    let json: serde_json::Value = serde_json::from_str(&json_str).expect("Must be valid JSON");

    assert_eq!(json["os"], "Mac OS X");
    assert_eq!(json["browser"], "Chrome");
    assert_eq!(json["clientBuildNumber"], 346892);
    assert_eq!(json["browserVersion"], "131.0.0.0");
}

#[test]
fn super_properties_roundtrip_matches_identify_properties() {
    let config = test_config();
    let props = build_identify_properties(&config);
    let encoded = super_properties(&config);

    let decoded_bytes = base64::engine::general_purpose::STANDARD
        .decode(&encoded)
        .unwrap();
    let decoded_json: serde_json::Value =
        serde_json::from_str(&String::from_utf8(decoded_bytes).unwrap()).unwrap();
    let props_json = to_serde(&identify_properties_json(&props));

    assert_eq!(decoded_json, props_json);
}

#[test]
fn http_headers_are_complete() {
    let config = test_config();
    let headers = web_headers(&config, "mfa.test_token_value");
    for name in [
        "User-Agent",
        "X-Super-Properties",
        "X-Discord-Locale",
        "Authorization",
        "Sec-Ch-Ua",
        "Sec-Ch-Ua-Mobile",
        "Sec-Ch-Ua-Platform",
        "Sec-Fetch-Dest",
        "Sec-Fetch-Mode",
        "Sec-Fetch-Site",
        "Origin",
        "Referer",
        "Accept",
        "Accept-Language",
        "X-Discord-Timezone",
        "X-Debug-Options",
    ] {
        assert!(header(&headers, name).is_some(), "missing {name}");
    }
}

#[test]
fn http_headers_browser_hints_match_chrome() {
    let config = test_config();
    let headers = web_headers(&config, "token");

    let sec_ch_ua = header(&headers, "Sec-Ch-Ua").unwrap();
    assert!(sec_ch_ua.contains("Google Chrome"));
    assert!(sec_ch_ua.contains("131"));
    assert_eq!(header(&headers, "Sec-Ch-Ua-Mobile").unwrap(), "?0");
    assert_eq!(header(&headers, "Sec-Ch-Ua-Platform").unwrap(), "\"macOS\"");
    assert_eq!(header(&headers, "Sec-Fetch-Dest").unwrap(), "empty");
    assert_eq!(header(&headers, "Sec-Fetch-Mode").unwrap(), "cors");
    assert_eq!(header(&headers, "Sec-Fetch-Site").unwrap(), "same-origin");
    assert_eq!(header(&headers, "Origin").unwrap(), "https://discord.com");
    assert_eq!(header(&headers, "X-Debug-Options").unwrap(), "bugReporterEnabled");
}

#[test]
fn http_headers_user_agent_matches_config() {
    let config = test_config();
    let headers = web_headers(&config, "token");
    assert_eq!(header(&headers, "User-Agent").unwrap(), config.browser_user_agent);
}

#[test]
fn http_headers_authorization_has_no_bot_prefix() {
    let config = test_config();
    let headers = web_headers(&config, "mfa.test_token_value");
    let auth = header(&headers, "Authorization").unwrap();
    assert_eq!(auth, "mfa.test_token_value");
    assert!(!auth.starts_with("Bot "));
    assert!(!auth.starts_with("Bearer "));
}

#[test]
fn http_headers_discord_locale_is_set() {
    let config = test_config();
    let headers = web_headers(&config, "token");
    assert_eq!(header(&headers, "X-Discord-Locale").unwrap(), "en-US");
}

#[test]
fn ws_request_has_browser_headers() {
    let config = test_config();
    let req = build_ws_request("wss://gateway.discord.gg/?v=10", &config).unwrap();
    assert_eq!(req.url, "wss://gateway.discord.gg/?v=10");
    assert_eq!(header(&req.headers, "Origin").unwrap(), "https://discord.com");
    assert_eq!(header(&req.headers, "User-Agent").unwrap(), config.browser_user_agent);
    assert_eq!(header(&req.headers, "Accept-Language").unwrap(), "en-US,en;q=0.9");
}

#[test]
fn http_headers_super_properties_is_valid_base64() {
    let config = test_config();
    let headers = web_headers(&config, "token");
    let super_props = header(&headers, "X-Super-Properties").unwrap();
    let decoded = base64::engine::general_purpose::STANDARD
        .decode(super_props)
        .expect("X-Super-Properties header must be valid base64");
    let json: serde_json::Value =
        serde_json::from_str(&String::from_utf8(decoded).unwrap()).unwrap();
    assert_eq!(json["browser"], "Chrome");
}

#[test]
fn os_detection_by_user_agent() {
    assert_eq!(
        detect_os_from_ua("Mozilla/5.0 (Windows NT 10.0; Win64; x64)"),
        ("Windows", "10", "\"Windows\"")
    );
    assert_eq!(detect_os_from_ua("Mozilla/5.0 (X11; Linux x86_64)").0, "Linux");
    assert_eq!(detect_os_from_ua(&test_config().browser_user_agent).2, "\"macOS\"");
}

#[test]
fn invalid_header_values_are_refused() {
    assert!(valid_header_value("plain value\twith tab"));
    assert!(!valid_header_value("line\nbreak"));
    let config = test_config();
    assert!(build_http_headers(&config, "bad\ntoken", "e30=", "UTC").is_err());
    let bad_ua = DiscordConfig { browser_user_agent: "bad\u{7f}".to_string(), ..test_config() };
    assert!(build_ws_request("wss://x", &bad_ua).is_err());
}

#[test]
fn super_properties_encoding_is_standard_base64() {
    // The wrapper must encode, not hand its input back.
    assert_eq!(encode_super_properties("{}"), "e30=");
    assert_eq!(encode_super_properties(""), "");
}

#[test]
fn timezone_falls_back_to_new_york() {
    assert_eq!(timezone_or_default(None), "America/New_York");
    assert_eq!(timezone_or_default(Some("Europe/Paris".to_string())), "Europe/Paris");
}

#[test]
fn super_properties_use_standard_padded_base64() {
    assert_eq!(encode_super_properties("Man"), "TWFu");
    assert_eq!(encode_super_properties("Ma"), "TWE=");
    assert_eq!(encode_super_properties("M"), "TQ==");
    assert_eq!(encode_super_properties(""), "");
    assert_eq!(encode_super_properties("\u{7f}>?"), "fz4/");
}
