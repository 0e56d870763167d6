use discordinator::cache::DiscordCache;
use discordinator::markdown::MarkdownStyle;
use discordinator::parser;
use discordinator::renderer::{
    invalidate_rendered, markdown_style_to_ratatui, render, render_message_content,
    MentionResolver,
};
use discordinator::types::{
    CachedChannel, CachedGuild, CachedMessage, CachedRole, CachedUser, ChannelType, Color,
    TextStyle,
};
use std::collections::HashMap;

/// A cache that knows the given users, channels and roles (the roles in one guild).
fn resolver(users: &[(u64, &str)], channels: &[(u64, &str)], roles: &[(u64, &str, u32)]) -> DiscordCache {
    let mut cache = DiscordCache::default();
    for (id, name) in users {
        cache.users.insert(
            *id,
            CachedUser { id: *id, name: name.to_string(), discriminator: None, display_name: None, avatar: None },
        );
    }
    for (id, name) in channels {
        cache.channels.insert(
            *id,
            CachedChannel {
                id: *id,
                guild_id: None,
                name: name.to_string(),
                kind: ChannelType::GuildText,
                position: 0,
                parent_id: None,
                topic: None,
            },
        );
    }
    if !roles.is_empty() {
        let mut map = HashMap::new();
        for (id, name, color) in roles {
            map.insert(*id, CachedRole { id: *id, name: name.to_string(), color: *color, position: 0 });
        }
        cache.guilds.insert(1, CachedGuild { id: 1, name: "g".to_string(), icon: None, channel_order: vec![], roles: map });
        cache.guild_order.push(1);
    }
    cache
}

fn empty() -> DiscordCache {
    resolver(&[], &[], &[])
}

fn make_message(content: &str) -> CachedMessage {
    CachedMessage {
        id: 1,
        channel_id: 2,
        author_id: 3,
        content: content.to_string(),
        timestamp: "2024-01-01T00:00:00Z".to_string(),
        edited_timestamp: None,
        attachments: vec![],
        embeds: vec![],
        message_reference: None,
        mention_everyone: false,
        mentions: vec![],
        rendered: None,
    }
}

fn line_text(spans: &[discordinator::types::StyledText]) -> String {
    spans.iter().map(|s| s.text.clone()).collect()
}

#[test]
fn render_plain_text() {
    let lines = render(&parser::parse("hello world"), &empty());
    assert_eq!(lines.len(), 1);
    assert_eq!(lines[0].spans.len(), 1);
    assert_eq!(lines[0].spans[0].text, "hello world");
}

#[test]
fn render_bold_text() {
    let lines = render(&parser::parse("**bold**"), &empty());
    assert_eq!(lines.len(), 1);
    assert_eq!(lines[0].spans[0].text, "bold");
    assert!(lines[0].spans[0].style.bold);
}

#[test]
fn render_italic_text() {
    let lines = render(&parser::parse("*italic*"), &empty());
    assert_eq!(lines.len(), 1);
    assert_eq!(lines[0].spans[0].text, "italic");
    assert!(lines[0].spans[0].style.italic);
}

#[test]
fn render_underline_text() {
    let lines = render(&parser::parse("__underline__"), &empty());
    assert_eq!(lines.len(), 1);
    assert_eq!(lines[0].spans[0].text, "underline");
    assert!(lines[0].spans[0].style.underlined);
}

#[test]
fn render_strikethrough_text() {
    let lines = render(&parser::parse("~~struck~~"), &empty());
    assert_eq!(lines.len(), 1);
    assert_eq!(lines[0].spans[0].text, "struck");
    assert!(lines[0].spans[0].style.crossed_out);
}

#[test]
fn render_inline_code() {
    let lines = render(&parser::parse("`code`"), &empty());
    assert_eq!(lines.len(), 1);
    assert_eq!(lines[0].spans[0].text, "code");
    assert_eq!(lines[0].spans[0].style.fg, Some(Color::Gray));
    assert_eq!(lines[0].spans[0].style.bg, Some(Color::DarkGray));
}

#[test]
fn render_code_block() {
    let lines = render(&parser::parse("```rust\nfn main() {}\n```"), &empty());
    assert!(lines.len() >= 2);
    let lang_line = lines.iter().find(|l| l.spans.iter().any(|s| s.text.contains("[rust]")));
    assert!(lang_line.is_some());
    // An empty first line, the language, then the indented code.
    assert_eq!(lines.len(), 3);
    assert!(lines[0].spans.is_empty());
    assert_eq!(lines[1].spans[0].text, "  [rust]");
    assert_eq!(lines[2].spans[0].text, "  fn main() {}");
    assert_eq!(lines[2].spans[0].style.fg, Some(Color::Gray));
}

#[test]
fn render_user_mention_resolved() {
    let lines = render(&parser::parse("Hello <@123>"), &resolver(&[(123, "TestUser")], &[], &[]));
    assert_eq!(lines.len(), 1);
    assert_eq!(lines[0].spans.len(), 2);
    assert_eq!(lines[0].spans[0].text, "Hello ");
    assert_eq!(lines[0].spans[1].text, "@TestUser");
    assert_eq!(lines[0].spans[1].style.fg, Some(Color::LightBlue));
    assert!(lines[0].spans[1].style.bold);
}

#[test]
fn render_user_mention_unresolved() {
    let lines = render(&parser::parse("<@999>"), &empty());
    assert_eq!(lines[0].spans[0].text, "@999");
}

#[test]
fn render_channel_mention_resolved() {
    let lines = render(&parser::parse("Check <#456>"), &resolver(&[], &[(456, "general")], &[]));
    assert_eq!(lines[0].spans[1].text, "#general");
}

#[test]
fn render_role_mention_with_color() {
    let lines = render(&parser::parse("<@&789>"), &resolver(&[], &[], &[(789, "Admin", 0xFF0000)]));
    assert_eq!(lines[0].spans[0].text, "@Admin");
    assert_eq!(lines[0].spans[0].style.fg, Some(Color::Rgb(255, 0, 0)));
}

#[test]
fn render_custom_emoji() {
    let lines = render(&parser::parse("<:smile:123>"), &empty());
    assert_eq!(lines[0].spans[0].text, ":smile:");
    assert_eq!(lines[0].spans[0].style.fg, Some(Color::Yellow));
}

#[test]
fn render_mixed_content() {
    let lines = render(&parser::parse("**bold** and `code`"), &empty());
    assert_eq!(lines.len(), 1);
    assert_eq!(lines[0].spans.len(), 3);
    assert_eq!(lines[0].spans[0].text, "bold");
    assert!(lines[0].spans[0].style.bold);
    assert_eq!(lines[0].spans[1].text, " and ");
    assert_eq!(lines[0].spans[2].text, "code");
}

#[test]
fn render_text_with_newlines() {
    let lines = render(&parser::parse("line1\nline2\nline3"), &empty());
    assert_eq!(lines.len(), 3);
    assert_eq!(lines[0].spans[0].text, "line1");
    assert_eq!(lines[1].spans[0].text, "line2");
    assert_eq!(lines[2].spans[0].text, "line3");
}

#[test]
fn render_empty_input() {
    let lines = render(&parser::parse(""), &empty());
    assert_eq!(lines.len(), 1);
    assert!(lines[0].spans.is_empty());
}

#[test]
fn render_bold_italic_combined() {
    let lines = render(&parser::parse("***bold italic***"), &empty());
    assert_eq!(lines[0].spans[0].text, "bold italic");
    let style = lines[0].spans[0].style;
    assert!(style.bold);
    assert!(style.italic);
}

#[test]
fn render_spoiler_and_unresolved_role() {
    let lines = render(&parser::parse("||hidden|| <@&5>"), &empty());
    assert_eq!(lines[0].spans[0].text, "hidden");
    assert_eq!(lines[0].spans[0].style.fg, Some(Color::DarkGray));
    assert_eq!(lines[0].spans[0].style.bg, Some(Color::DarkGray));
    assert_eq!(lines[0].spans[2].text, "@5");
    assert_eq!(lines[0].spans[2].style.fg, Some(Color::LightBlue));
}

#[test]
fn cache_resolves_display_names_first() {
    let mut cache = empty();
    cache.users.insert(
        7,
        CachedUser { id: 7, name: "user7".to_string(), discriminator: None, display_name: Some("Seven".to_string()), avatar: None },
    );
    assert_eq!(MentionResolver::resolve_user(&cache, 7), Some("Seven".to_string()));
    assert_eq!(cache.resolve_user(8), None);
    assert_eq!(cache.resolve_channel(8), None);
    assert_eq!(MentionResolver::resolve_role(&cache, 8), None);
}

#[test]
fn markdown_flags_add_to_base_style() {
    let base = TextStyle { fg: Some(Color::Yellow), bg: None, bold: true, italic: false, underlined: false, crossed_out: false };
    let s = markdown_style_to_ratatui(MarkdownStyle { italic: true, strikethrough: true, ..Default::default() }, base);
    assert_eq!(s.fg, Some(Color::Yellow));
    assert!(s.bold && s.italic && s.crossed_out && !s.underlined);
}

#[test]
fn first_render_parses_and_caches() {
    let mut msg = make_message("**hello** world");
    let resolver = empty();
    assert!(msg.rendered.is_none());
    {
        let lines = render_message_content(&mut msg, &resolver);
        assert!(!lines.is_empty());
    }
    assert!(msg.rendered.is_some());
}

#[test]
fn subsequent_render_uses_cache() {
    let mut msg = make_message("**hello** world");
    let resolver = empty();
    let first_len = render_message_content(&mut msg, &resolver).len();
    let lines2 = render_message_content(&mut msg, &resolver);
    assert_eq!(lines2.len(), first_len);
}

#[test]
fn invalidate_forces_reparse() {
    let mut msg = make_message("original content");
    let resolver = empty();
    render_message_content(&mut msg, &resolver);
    assert!(msg.rendered.is_some());
    msg.content = "**updated** content".to_string();
    invalidate_rendered(&mut msg);
    assert!(msg.rendered.is_none());
    {
        let lines = render_message_content(&mut msg, &resolver);
        assert!(!lines.is_empty());
    }
    assert!(msg.rendered.is_some());
    let rendered = msg.rendered.as_ref().unwrap();
    assert!(rendered[0].spans.iter().any(|s| s.text.contains("updated")));
}

#[test]
fn render_with_resolved_mentions() {
    let mut msg = make_message("Hello <@100> in <#200>");
    let resolver = resolver(&[(100, "Alice")], &[(200, "general")], &[]);
    let lines = render_message_content(&mut msg, &resolver);
    let all_text = line_text(&lines[0].spans);
    assert!(all_text.contains("@Alice"));
    assert!(all_text.contains("#general"));
}

#[test]
fn render_plain_text_message() {
    let mut msg = make_message("just plain text");
    let lines = render_message_content(&mut msg, &empty());
    assert_eq!(lines.len(), 1);
    assert_eq!(lines[0].spans[0].text, "just plain text");
}

#[test]
fn render_empty_message() {
    let mut msg = make_message("");
    let lines = render_message_content(&mut msg, &empty());
    assert_eq!(lines.len(), 1);
}

#[test]
fn render_message_with_code_block() {
    let mut msg = make_message("```rust\nfn main() {}\n```");
    let lines = render_message_content(&mut msg, &empty());
    assert!(lines.len() >= 2);
}

#[test]
fn cache_invalidation_on_edit_simulation() {
    let mut msg = make_message("v1");
    let resolver = empty();
    render_message_content(&mut msg, &resolver);
    let v1_content = line_text(&msg.rendered.as_ref().unwrap()[0].spans);
    assert!(v1_content.contains("v1"));
    msg.content = "v2".to_string();
    msg.edited_timestamp = Some("2024-01-01T01:00:00Z".to_string());
    invalidate_rendered(&mut msg);
    render_message_content(&mut msg, &resolver);
    let v2_content = line_text(&msg.rendered.as_ref().unwrap()[0].spans);
    assert!(v2_content.contains("v2"));
    assert!(!v2_content.contains("v1"));
}
