use discordinator::discord_properties::{
    assemble_properties, parse_build_number, parse_build_number_breaks, parse_bundle_url,
    parse_capabilities, parse_capabilities_breaks, regex_find, regex_find_breaks,
    DiscordProperties, CACHE_TTL_SECS, DEFAULT_CAPABILITIES,
};
use std::time::{SystemTime, UNIX_EPOCH};

fn now_secs() -> u64 {
    SystemTime::now().duration_since(UNIX_EPOCH).unwrap().as_secs()
}

#[test]
fn parse_build_number_from_global_env() {
    let html = r#"<script>window.GLOBAL_ENV = {"API_ENDPOINT":"//discord.com/api","BUILD_NUMBER":"507104","RELEASE_CHANNEL":"stable"}</script>"#;
    assert!(!parse_build_number_breaks(html));
    assert_eq!(parse_build_number(html), Some(507104));
}

#[test]
fn parse_build_number_missing_returns_none() {
    let html = "<html><body>No build number here</body></html>";
    assert_eq!(parse_build_number(html), None);
}

#[test]
fn parse_bundle_url_from_script_tag() {
    let html = r#"<script defer src="/assets/web.abc123def.js"></script>"#;
    assert_eq!(
        parse_bundle_url(html),
        Some("/assets/web.abc123def.js".to_string())
    );
}

#[test]
fn parse_bundle_url_missing_returns_none() {
    let html = "<html><body>No scripts</body></html>";
    assert_eq!(parse_bundle_url(html), None);
}

#[test]
fn parse_capabilities_from_js_bundle() {
    let js = r#"something;let r=32768,i=1734653;function s(e){let{useChannelObfuscation:t}=e;return t?i|r:i}"#;
    assert!(!parse_capabilities_breaks(js));
    assert_eq!(parse_capabilities(js), Some(1_734_653));
}

#[test]
fn parse_capabilities_missing_returns_none() {
    let js = "var x = 42; function hello() {}";
    assert_eq!(parse_capabilities(js), None);
}

#[test]
fn discord_properties_freshness() {
    let fresh = DiscordProperties {
        client_build_number: 507104,
        capabilities: 1734653,
        browser_version: "131.0.0.0".to_string(),
        browser_user_agent: "test".to_string(),
        fetched_at: now_secs(),
    };
    assert!(fresh.is_fresh());

    let stale = DiscordProperties {
        fetched_at: now_secs() - 7 * 60 * 60, // 7 hours ago
        ..fresh
    };
    assert!(!stale.is_fresh());
}

#[test]
fn regex_find_extracts_digits() {
    assert_eq!(
        regex_find(r#""BUILD_NUMBER":"507104""#, r#""BUILD_NUMBER":"(\d+)""#),
        Some("507104".to_string())
    );
}

#[test]
fn regex_find_no_match_returns_none() {
    assert_eq!(
        regex_find("no match here", r#""BUILD_NUMBER":"(\d+)""#),
        None
    );
}

#[test]
fn freshness_ends_at_the_time_to_live() {
    let p = DiscordProperties {
        client_build_number: 1,
        capabilities: 2,
        browser_version: "1".to_string(),
        browser_user_agent: "ua".to_string(),
        fetched_at: 1000,
    };
    assert!(p.is_fresh_at(1000));
    assert!(p.is_fresh_at(1000 + CACHE_TTL_SECS - 1));
    assert!(!p.is_fresh_at(1000 + CACHE_TTL_SECS));
    // Fetched in the future of the clock: not fresh.
    assert!(!p.is_fresh_at(999));
}

#[test]
fn build_number_other_spellings() {
    assert_eq!(parse_build_number(r#"BUILD_NUMBER:"42""#), Some(42));
    assert_eq!(parse_build_number(r#"{"buildNumber":"77"}"#), Some(77));
    // A number too large for 64 bits is no build number.
    assert_eq!(parse_build_number(r#""BUILD_NUMBER":"99999999999999999999999""#), None);
}

#[test]
fn regex_find_skips_a_candidate_without_suffix() {
    assert_eq!(
        regex_find(r#"a=12x a=34;"#, r#"a=(\d+);"#),
        Some("34".to_string())
    );
    // A pattern with no capture group finds nothing.
    assert_eq!(regex_find("a=12", "a=12"), None);
}

#[test]
fn regex_find_on_multibyte_text_is_flagged() {
    // After the prefix comes a character of several bytes: the original search would resume
    // inside it.
    assert!(regex_find_breaks("a=é1;", "a=(\\d+);"));
    assert!(!regex_find_breaks("a=1;", "a=(\\d+);"));
}

#[test]
fn capabilities_far_pattern_needs_a_large_value() {
    assert_eq!(parse_capabilities(",i=12345;function"), Some(12345));
    assert_eq!(parse_capabilities(",i=123;function"), None);
}

#[test]
fn assemble_defaults() {
    let p = assemble_properties(507104, "nothing here", None, 5);
    assert_eq!(p.client_build_number, 507104);
    assert_eq!(p.capabilities, DEFAULT_CAPABILITIES);
    assert_eq!(p.browser_version, "131.0.0.0");
    assert_eq!(
        p.browser_user_agent,
        "Mozilla/5.0 (Macintosh; Intel Mac OS X 10_15_7) AppleWebKit/537.36 (KHTML, like Gecko) Chrome/131.0.0.0 Safari/537.36"
    );
    assert_eq!(p.fetched_at, 5);
    let q = assemble_properties(1, ",i=54321;function", Some("140.0.1.2".to_string()), 6);
    assert_eq!(q.capabilities, 54321);
    assert_eq!(q.browser_version, "140.0.1.2");
}

#[test]
fn parse_build_number_non_digit_multibyte_returns_none() {
    assert_eq!(parse_build_number(r#""BUILD_NUMBER":"é""#), None);
}

#[test]
fn parse_capabilities_window_inside_character_returns_none() {
    let js = "é".to_string() + &"x".repeat(199) + "useChannelObfuscation";
    assert_eq!(parse_capabilities(&js), None);
}
