use vstd::prelude::*;

verus! {

/// Style flags for formatted text.
#[derive(Debug, Clone, Copy, PartialEq, Eq, Structural)]
pub struct MarkdownStyle {
    pub bold: bool,
    pub italic: bool,
    pub underline: bool,
    pub strikethrough: bool,
}

impl MarkdownStyle {
    /// No formatting.
    pub open spec fn plain() -> MarkdownStyle {
        MarkdownStyle { bold: false, italic: false, underline: false, strikethrough: false }
    }
}

impl Default for MarkdownStyle {
    fn default() -> (s: Self)
        ensures
            s == MarkdownStyle::plain(),
    {
        MarkdownStyle { bold: false, italic: false, underline: false, strikethrough: false }
    }
}

/// A single span of parsed markdown.
#[derive(Debug, PartialEq)]
pub enum MarkdownSpan {
    /// Plain text with no formatting.
    Text(String),
    /// Styled text (bold, italic, underline, strikethrough; they can combine).
    Styled { content: Vec<MarkdownSpan>, style: MarkdownStyle },
    /// Inline code.
    InlineCode(String),
    /// Fenced code block with an optional language.
    CodeBlock { language: Option<String>, content: String },
    /// User mention (`<@id>` or `<@!id>`).
    UserMention(u64),
    /// Channel mention (`<#id>`).
    ChannelMention(u64),
    /// Role mention (`<@&id>`).
    RoleMention(u64),
    /// Custom emoji (`<:name:id>` or `<a:name:id>`).
    CustomEmoji { name: String, id: u64, animated: bool },
    /// Spoiler (`||text||`).
    Spoiler(Vec<MarkdownSpan>),
}

/// The model of a markdown span: texts as characters.
pub enum Span {
    Text(Seq<char>),
    Styled { content: Seq<Span>, style: MarkdownStyle },
    InlineCode(Seq<char>),
    CodeBlock { language: Option<Seq<char>>, content: Seq<char> },
    UserMention(u64),
    ChannelMention(u64),
    RoleMention(u64),
    CustomEmoji { name: Seq<char>, id: u64, animated: bool },
    Spoiler(Seq<Span>),
}

/// The model of a span.
pub open spec fn span_of(s: MarkdownSpan) -> Span
    decreases s,
{
    match s {
        MarkdownSpan::Text(t) => Span::Text(t@),
        MarkdownSpan::Styled { content, style } => Span::Styled {
            content: spans_of(content@),
            style,
        },
        MarkdownSpan::InlineCode(t) => Span::InlineCode(t@),
        MarkdownSpan::CodeBlock { language, content } => Span::CodeBlock {
            language: match language {
                Some(l) => Some(l@),
                None => None,
            },
            content: content@,
        },
        MarkdownSpan::UserMention(id) => Span::UserMention(id),
        MarkdownSpan::ChannelMention(id) => Span::ChannelMention(id),
        MarkdownSpan::RoleMention(id) => Span::RoleMention(id),
        MarkdownSpan::CustomEmoji { name, id, animated } => Span::CustomEmoji {
            name: name@,
            id,
            animated,
        },
        MarkdownSpan::Spoiler(inner) => Span::Spoiler(spans_of(inner@)),
    }
}

/// The models of a sequence of spans.
pub open spec fn spans_of(v: Seq<MarkdownSpan>) -> Seq<Span>
    decreases v,
{
    if v.len() == 0 {
        Seq::empty()
    } else {
        spans_of(v.subrange(0, v.len() - 1)).push(span_of(v[v.len() - 1]))
    }
}

/// Parsed Discord-flavored markdown: a sequence of typed spans.
#[derive(Debug, PartialEq)]
pub struct MarkdownAst {
    pub spans: Vec<MarkdownSpan>,
}

impl MarkdownAst {
    /// An AST holding the given spans.
    pub fn new(spans: Vec<MarkdownSpan>) -> (a: Self)
        ensures
            a.spans@ == spans@,
    {
        MarkdownAst { spans }
    }
}

} // verus!
