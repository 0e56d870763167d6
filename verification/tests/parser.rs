use discordinator::markdown::{MarkdownSpan, MarkdownStyle};
use discordinator::parser::{find_closing, parse, parse_id_until_close, parse_inline_code};

fn text(s: &str) -> MarkdownSpan {
    MarkdownSpan::Text(s.into())
}

fn styled(content: Vec<MarkdownSpan>, style: MarkdownStyle) -> MarkdownSpan {
    MarkdownSpan::Styled { content, style }
}

#[test]
fn plain_text() {
    assert_eq!(parse("hello world").spans, vec![text("hello world")]);
}

#[test]
fn empty_input() {
    assert!(parse("").spans.is_empty());
}

#[test]
fn bold_text() {
    assert_eq!(
        parse("**bold**").spans,
        vec![styled(vec![text("bold")], MarkdownStyle { bold: true, ..Default::default() })]
    );
}

#[test]
fn italic_text() {
    assert_eq!(
        parse("*italic*").spans,
        vec![styled(vec![text("italic")], MarkdownStyle { italic: true, ..Default::default() })]
    );
}

#[test]
fn underline_text() {
    assert_eq!(
        parse("__underline__").spans,
        vec![styled(vec![text("underline")], MarkdownStyle { underline: true, ..Default::default() })]
    );
}

#[test]
fn strikethrough_text() {
    assert_eq!(
        parse("~~strikethrough~~").spans,
        vec![styled(vec![text("strikethrough")], MarkdownStyle { strikethrough: true, ..Default::default() })]
    );
}

#[test]
fn inline_code() {
    assert_eq!(parse("`code`").spans, vec![MarkdownSpan::InlineCode("code".into())]);
}

#[test]
fn code_block_with_language() {
    assert_eq!(
        parse("```rust\nfn main() {}\n```").spans,
        vec![MarkdownSpan::CodeBlock { language: Some("rust".into()), content: "fn main() {}\n".into() }]
    );
}

#[test]
fn code_block_without_language() {
    assert_eq!(
        parse("```\nhello\n```").spans,
        vec![MarkdownSpan::CodeBlock { language: None, content: "hello\n".into() }]
    );
}

#[test]
fn user_mention() {
    assert_eq!(parse("<@123456>").spans, vec![MarkdownSpan::UserMention(123456)]);
}

#[test]
fn user_mention_with_nickname() {
    assert_eq!(parse("<@!123456>").spans, vec![MarkdownSpan::UserMention(123456)]);
}

#[test]
fn channel_mention() {
    assert_eq!(parse("<#789012>").spans, vec![MarkdownSpan::ChannelMention(789012)]);
}

#[test]
fn role_mention() {
    assert_eq!(parse("<@&345678>").spans, vec![MarkdownSpan::RoleMention(345678)]);
}

#[test]
fn custom_emoji() {
    assert_eq!(
        parse("<:smile:123456>").spans,
        vec![MarkdownSpan::CustomEmoji { name: "smile".into(), id: 123456, animated: false }]
    );
}

#[test]
fn animated_emoji() {
    assert_eq!(
        parse("<a:wave:789012>").spans,
        vec![MarkdownSpan::CustomEmoji { name: "wave".into(), id: 789012, animated: true }]
    );
}

#[test]
fn mixed_formatting() {
    assert_eq!(
        parse("hello **bold** and *italic* world").spans,
        vec![
            text("hello "),
            styled(vec![text("bold")], MarkdownStyle { bold: true, ..Default::default() }),
            text(" and "),
            styled(vec![text("italic")], MarkdownStyle { italic: true, ..Default::default() }),
            text(" world"),
        ]
    );
}

#[test]
fn bold_italic_combined() {
    assert_eq!(
        parse("***bold italic***").spans,
        vec![styled(
            vec![text("bold italic")],
            MarkdownStyle { bold: true, italic: true, ..Default::default() }
        )]
    );
}

#[test]
fn nested_bold_in_italic() {
    assert_eq!(
        parse("*italic **bold** text*").spans,
        vec![styled(
            vec![
                text("italic "),
                styled(vec![text("bold")], MarkdownStyle { bold: true, ..Default::default() }),
                text(" text"),
            ],
            MarkdownStyle { italic: true, ..Default::default() }
        )]
    );
}

#[test]
fn text_with_mention() {
    assert_eq!(
        parse("Hello <@123> how are you?").spans,
        vec![text("Hello "), MarkdownSpan::UserMention(123), text(" how are you?")]
    );
}

#[test]
fn text_with_emoji() {
    assert_eq!(
        parse("I like <:rust:123456> a lot").spans,
        vec![
            text("I like "),
            MarkdownSpan::CustomEmoji { name: "rust".into(), id: 123456, animated: false },
            text(" a lot"),
        ]
    );
}

#[test]
fn unclosed_bold_treated_as_text() {
    assert_eq!(parse("**unclosed bold").spans, vec![text("**unclosed bold")]);
}

#[test]
fn unclosed_italic_treated_as_text() {
    assert_eq!(parse("*unclosed italic").spans, vec![text("*unclosed italic")]);
}

#[test]
fn unclosed_code_treated_as_text() {
    assert_eq!(parse("`unclosed code").spans, vec![text("`unclosed code")]);
}

#[test]
fn unclosed_code_block_treated_as_text() {
    assert_eq!(parse("```unclosed code block").spans, vec![text("```unclosed code block")]);
}

#[test]
fn invalid_mention_treated_as_text() {
    assert_eq!(parse("<@abc>").spans, vec![text("<@abc>")]);
}

#[test]
fn inline_code_preserves_formatting_chars() {
    assert_eq!(parse("`**not bold**`").spans, vec![MarkdownSpan::InlineCode("**not bold**".into())]);
}

#[test]
fn multiple_mentions() {
    assert_eq!(
        parse("<@100> and <@200> and <#300>").spans,
        vec![
            MarkdownSpan::UserMention(100),
            text(" and "),
            MarkdownSpan::UserMention(200),
            text(" and "),
            MarkdownSpan::ChannelMention(300),
        ]
    );
}

#[test]
fn code_block_preserves_content_exactly() {
    assert_eq!(
        parse("```\n**bold** *italic* <@123>\n```").spans,
        vec![MarkdownSpan::CodeBlock { language: None, content: "**bold** *italic* <@123>\n".into() }]
    );
}

#[test]
fn empty_bold_treated_as_text() {
    assert_eq!(parse("****").spans.len(), 1);
}

#[test]
fn strikethrough_with_inner_text() {
    assert_eq!(
        parse("~~hello world~~").spans,
        vec![styled(vec![text("hello world")], MarkdownStyle { strikethrough: true, ..Default::default() })]
    );
}

#[test]
fn complex_message() {
    let ast = parse("**Welcome** to <#100>! Check out <:emoji:200> and say hi to <@300>");
    assert_eq!(ast.spans.len(), 7);
    assert!(matches!(&ast.spans[0], MarkdownSpan::Styled { style, .. } if style.bold));
    assert!(matches!(&ast.spans[2], MarkdownSpan::ChannelMention(id) if *id == 100));
    assert!(matches!(&ast.spans[4], MarkdownSpan::CustomEmoji { name, .. } if name == "emoji"));
    assert!(matches!(&ast.spans[6], MarkdownSpan::UserMention(id) if *id == 300));
}

#[test]
fn spoiler_and_underscore_italic() {
    assert_eq!(parse("||secret||").spans, vec![MarkdownSpan::Spoiler(vec![text("secret")])]);
    assert_eq!(
        parse("_it_").spans,
        vec![styled(vec![text("it")], MarkdownStyle { italic: true, ..Default::default() })]
    );
    // An underscore inside a word is text.
    assert_eq!(parse("snake_case_name").spans, vec![text("snake_case_name")]);
}

fn collect_text(spans: &[MarkdownSpan]) -> String {
    let mut result = String::new();
    for span in spans {
        match span {
            MarkdownSpan::Text(t) => result.push_str(t),
            MarkdownSpan::Styled { content, .. } => result.push_str(&collect_text(content)),
            MarkdownSpan::InlineCode(c) => result.push_str(c),
            MarkdownSpan::CodeBlock { content, language } => {
                if let Some(lang) = language {
                    result.push_str(lang);
                }
                result.push_str(content);
            }
            MarkdownSpan::Spoiler(inner) => result.push_str(&collect_text(inner)),
            _ => {}
        }
    }
    result
}

fn no_empty_text(spans: &[MarkdownSpan]) -> bool {
    spans.iter().all(|s| match s {
        MarkdownSpan::Text(t) => !t.is_empty(),
        MarkdownSpan::Styled { content, .. } => no_empty_text(content),
        MarkdownSpan::Spoiler(inner) => no_empty_text(inner),
        _ => true,
    })
}

#[test]
fn plain_inputs_are_one_text_span() {
    for input in ["a", "Hello, world!", "x y z 1 2 3", "what? yes; no: maybe.", "résumé 日本語"] {
        let ast = parse(input);
        assert_eq!(ast.spans, vec![text(input)]);
        assert_eq!(collect_text(&ast.spans), input);
    }
}

#[test]
fn parsing_odd_inputs_never_leaves_empty_text() {
    for input in [
        "", "*", "**", "***", "****", "_", "__", "~~", "||", "`", "```", "<", "<@", "<@>", "<#",
        "<:a:>", "<a:b:1>", "**a*b**", "*a**b*", "__a_b__", "`a``b`", "```a\nb", "x<@1>y",
        "~~~~", "||||", "**__~~x~~__**", "<@&>", "<@!12>", "a*b*c", "_a_b_c_",
    ] {
        let ast = parse(input);
        assert!(no_empty_text(&ast.spans), "empty text in {:?} for {:?}", ast.spans, input);
    }
}

#[test]
fn find_closing_finds_delimiter() {
    let chars: Vec<char> = "ab**cd".chars().collect();
    assert_eq!(find_closing(&chars, 0, "**"), Some(("ab".to_string(), 4)));
    assert_eq!(find_closing(&chars, 4, "**"), None);
}

#[test]
fn inline_code_and_id_helpers() {
    let chars: Vec<char> = "`x y` rest".chars().collect();
    assert_eq!(parse_inline_code(&chars, 0), Some(("x y".to_string(), 5)));
    let ids: Vec<char> = "123>tail".chars().collect();
    assert_eq!(parse_id_until_close(&ids, 0), Some((123, 4)));
    let bad: Vec<char> = "12a>".chars().collect();
    assert_eq!(parse_id_until_close(&bad, 0), None);
}
