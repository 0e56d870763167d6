use vstd::prelude::*;
use crate::markdown::{MarkdownAst, MarkdownSpan, MarkdownStyle, Span, span_of, spans_of};
use crate::parser::{lemma_next_char, next_char, parse, parsed};
use crate::text::{chars_of, concat_str, copy_str, decimal, decimal_string, string_from_chars};
use crate::cache::DiscordCache;
use crate::types::{CachedGuild, CachedMessage, Color, RenderedLine, StyledText, TextStyle};

verus! {

/// Names Discord entities while rendering mentions. Implemented by the cache; other resolvers
/// (in tests, say) may implement it too.
pub trait MentionResolver {
    /// The name of a user, if known.
    spec fn user_name(&self, id: u64) -> Option<Seq<char>>;

    /// The name of a channel, if known.
    spec fn channel_name(&self, id: u64) -> Option<Seq<char>>;

    /// The name and color of a role, if known.
    spec fn role_info(&self, id: u64) -> Option<(Seq<char>, u32)>;

    /// The name of a user, if known.
    fn resolve_user(&self, id: u64) -> (r: Option<String>)
        ensures
            match r {
                Some(n) => self.user_name(id) == Some(n@),
                None => self.user_name(id) is None,
            },
    ;

    /// The name of a channel, if known.
    fn resolve_channel(&self, id: u64) -> (r: Option<String>)
        ensures
            match r {
                Some(n) => self.channel_name(id) == Some(n@),
                None => self.channel_name(id) is None,
            },
    ;

    /// The name and color (0xRRGGBB) of a role, if known.
    fn resolve_role(&self, id: u64) -> (r: Option<(String, u32)>)
        ensures
            match r {
                Some((n, c)) => self.role_info(id) == Some((n@, c)),
                None => self.role_info(id) is None,
            },
    ;
}

/// The first guild, in sidebar order, that has a role `id`: that role's name and color.
pub open spec fn role_in(order: Seq<u64>, guilds: Map<u64, CachedGuild>, id: u64) -> Option<
    (Seq<char>, u32),
>
    decreases order.len(),
{
    if order.len() == 0 {
        None
    } else {
        let g = order[0];
        if guilds.contains_key(g) && guilds[g].roles@.contains_key(id) {
            Some((guilds[g].roles@[id].name@, guilds[g].roles@[id].color))
        } else {
            role_in(order.drop_first(), guilds, id)
        }
    }
}

impl MentionResolver for DiscordCache {
    open spec fn user_name(&self, id: u64) -> Option<Seq<char>> {
        if self.users@.contains_key(id) {
            Some(
                match self.users@[id].display_name {
                    Some(d) => d@,
                    None => self.users@[id].name@,
                },
            )
        } else {
            None
        }
    }

    open spec fn channel_name(&self, id: u64) -> Option<Seq<char>> {
        if self.channels@.contains_key(id) {
            Some(self.channels@[id].name@)
        } else {
            None
        }
    }

    open spec fn role_info(&self, id: u64) -> Option<(Seq<char>, u32)> {
        role_in(self.guild_order@, self.guilds@, id)
    }

    fn resolve_user(&self, id: u64) -> (r: Option<String>) {
        match self.users.get(&id) {
            Some(u) => match &u.display_name {
                Some(d) => Some(d.clone()),
                None => Some(u.name.clone()),
            },
            None => None,
        }
    }

    fn resolve_channel(&self, id: u64) -> (r: Option<String>) {
        match self.channels.get(&id) {
            Some(c) => Some(c.name.clone()),
            None => None,
        }
    }

    fn resolve_role(&self, id: u64) -> (r: Option<(String, u32)>) {
        let mut i: usize = 0;
        assert(self.guild_order@.skip(0) =~= self.guild_order@);
        while i < self.guild_order.len()
            invariant
                i <= self.guild_order@.len(),
                role_in(self.guild_order@.skip(i as int), self.guilds@, id) == role_in(
                    self.guild_order@,
                    self.guilds@,
                    id,
                ),
            decreases self.guild_order@.len() - i,
        {
            let g = self.guild_order[i];
            let ghost rest = self.guild_order@.skip(i as int);
            assert(rest[0] == g);
            assert(rest.drop_first() =~= self.guild_order@.skip(i + 1));
            if let Some(guild) = self.guilds.get(&g) {
                if let Some(role) = guild.roles.get(&id) {
                    return Some((role.name.clone(), role.color));
                }
            }
            i = i + 1;
        }
        assert(self.guild_order@.skip(i as int) =~= Seq::<u64>::empty());
        None
    }
}

/// A piece of rendered text: its characters and style.
pub type Piece = (Seq<char>, TextStyle);

/// The model of rendered lines.
pub open spec fn lines_view(v: Seq<RenderedLine>) -> Seq<Seq<Piece>> {
    v.map_values(|l: RenderedLine| l.spans@.map_values(|p: StyledText| (p.text@, p.style)))
}

/// The default style: no colors, no modifiers.
pub open spec fn plain_style() -> TextStyle {
    TextStyle { fg: None, bg: None, bold: false, italic: false, underlined: false, crossed_out: false }
}

/// `base` with the markdown flags added as modifiers.
pub open spec fn with_markdown(md: MarkdownStyle, base: TextStyle) -> TextStyle {
    TextStyle {
        bold: base.bold || md.bold,
        italic: base.italic || md.italic,
        underlined: base.underlined || md.underline,
        crossed_out: base.crossed_out || md.strikethrough,
        ..base
    }
}

/// The style of mentions: light blue and bold.
pub open spec fn mention_style(base: TextStyle) -> TextStyle {
    TextStyle { fg: Some(Color::LightBlue), bold: true, ..base }
}

/// The color of a role, from its 0xRRGGBB value.
pub open spec fn role_color(color: u32) -> Color {
    Color::Rgb(((color >> 16u32) & 0xFFu32) as u8, ((color >> 8u32) & 0xFFu32) as u8, (color & 0xFFu32) as u8)
}

/// `lines` with a piece appended to the last line, when the piece is not empty.
pub open spec fn push_piece(lines: Seq<Seq<Piece>>, text: Seq<char>, st: TextStyle) -> Seq<Seq<Piece>> {
    if text.len() == 0 || lines.len() == 0 {
        lines
    } else {
        lines.update(lines.len() - 1, lines.last().push((text, st)))
    }
}

/// `lines` with a piece appended to the last line, empty or not.
pub open spec fn push_any(lines: Seq<Seq<Piece>>, text: Seq<char>, st: TextStyle) -> Seq<Seq<Piece>> {
    if lines.len() == 0 {
        lines
    } else {
        lines.update(lines.len() - 1, lines.last().push((text, st)))
    }
}

/// `lines` after text: each newline starts a new line; the non-empty runs between them become
/// pieces.
pub open spec fn add_text(lines: Seq<Seq<Piece>>, t: Seq<char>, st: TextStyle) -> Seq<Seq<Piece>>
    decreases t.len(),
{
    let nl = next_char(t, 0, '\n');
    if nl >= t.len() {
        push_piece(lines, t, st)
    } else {
        proof {
            lemma_next_char(t, 0, '\n');
        }
        add_text(
            push_piece(lines, t.subrange(0, nl), st).push(Seq::empty()),
            t.subrange(nl + 1, t.len() as int),
            st,
        )
    }
}

/// The lines of a text as `str::lines` gives them: split at newlines, a carriage return before
/// a newline dropped, no line after a final newline.
pub open spec fn text_lines(s: Seq<char>) -> Seq<Seq<char>>
    decreases s.len(),
{
    if s.len() == 0 {
        Seq::empty()
    } else {
        let nl = next_char(s, 0, '\n');
        if nl >= s.len() {
            seq![s]
        } else {
            proof {
                lemma_next_char(s, 0, '\n');
            }
            let line = s.subrange(0, nl);
            let line = if line.len() > 0 && line.last() == '\r' {
                line.drop_last()
            } else {
                line
            };
            seq![line] + text_lines(s.subrange(nl + 1, s.len() as int))
        }
    }
}

/// `lines` with one line per code line, each indented by two spaces and gray.
pub open spec fn add_code_lines(lines: Seq<Seq<Piece>>, code: Seq<Seq<char>>) -> Seq<Seq<Piece>>
    decreases code.len(),
{
    if code.len() == 0 {
        lines
    } else {
        add_code_lines(lines, code.drop_last()).push(
            seq![("  "@ + code.last(), TextStyle { fg: Some(Color::Gray), ..plain_style() })],
        )
    }
}

/// `lines` after rendering one span in `base` style.
pub open spec fn render_span_spec<R: MentionResolver>(
    lines: Seq<Seq<Piece>>,
    sp: Span,
    base: TextStyle,
    r: R,
) -> Seq<Seq<Piece>>
    decreases sp,
{
    match sp {
        Span::Text(t) => add_text(lines, t, base),
        Span::Styled { content, style } => render_spans_spec(
            lines,
            content,
            with_markdown(style, base),
            r,
        ),
        Span::InlineCode(code) => push_any(
            lines,
            code,
            TextStyle { fg: Some(Color::Gray), bg: Some(Color::DarkGray), ..base },
        ),
        Span::CodeBlock { language, content } => {
            let with_lang = match language {
                Some(l) => lines.push(
                    seq![("  ["@ + l + "]"@, TextStyle { fg: Some(Color::DarkGray), ..plain_style() })],
                ),
                None => lines,
            };
            add_code_lines(with_lang, text_lines(content))
        },
        Span::UserMention(id) => push_any(
            lines,
            "@"@ + match r.user_name(id) {
                Some(n) => n,
                None => decimal(id as nat),
            },
            mention_style(base),
        ),
        Span::ChannelMention(id) => push_any(
            lines,
            "#"@ + match r.channel_name(id) {
                Some(n) => n,
                None => decimal(id as nat),
            },
            mention_style(base),
        ),
        Span::RoleMention(id) => match r.role_info(id) {
            Some((n, c)) => push_any(
                lines,
                "@"@ + n,
                TextStyle { fg: Some(role_color(c)), bold: true, ..base },
            ),
            None => push_any(lines, "@"@ + decimal(id as nat), mention_style(base)),
        },
        Span::CustomEmoji { name, id: _, animated: _ } => push_any(
            lines,
            ":"@ + name + ":"@,
            TextStyle { fg: Some(Color::Yellow), ..base },
        ),
        Span::Spoiler(inner) => render_spans_spec(
            lines,
            inner,
            TextStyle { fg: Some(Color::DarkGray), bg: Some(Color::DarkGray), ..base },
            r,
        ),
    }
}

/// `lines` after rendering spans in order in `base` style.
pub open spec fn render_spans_spec<R: MentionResolver>(
    lines: Seq<Seq<Piece>>,
    s: Seq<Span>,
    base: TextStyle,
    r: R,
) -> Seq<Seq<Piece>>
    decreases s,
{
    if s.len() == 0 {
        lines
    } else {
        render_span_spec(
            render_spans_spec(lines, s.subrange(0, s.len() - 1), base, r),
            s[s.len() - 1],
            base,
            r,
        )
    }
}

/// What rendering spans gives: starting from one empty line, in the default style.
pub open spec fn rendered<R: MentionResolver>(s: Seq<Span>, r: R) -> Seq<Seq<Piece>> {
    render_spans_spec(seq![Seq::empty()], s, plain_style(), r)
}

/// The style of text under markdown flags: `base` with the flags added as modifiers.
pub fn markdown_style_to_ratatui(md_style: MarkdownStyle, base: TextStyle) -> (r: TextStyle)
    ensures
        r == with_markdown(md_style, base),
{
    TextStyle {
        bold: base.bold || md_style.bold,
        italic: base.italic || md_style.italic,
        underlined: base.underlined || md_style.underline,
        crossed_out: base.crossed_out || md_style.strikethrough,
        ..base
    }
}

fn piece(text: String, style: TextStyle) -> (p: StyledText)
    ensures
        p.text@ == text@,
        p.style == style,
{
    StyledText { text, style }
}

/// Appends a piece to the last line.
fn append_piece(lines: &mut Vec<RenderedLine>, p: StyledText)
    requires
        old(lines)@.len() > 0,
    ensures
        lines_view(final(lines)@) == push_any(lines_view(old(lines)@), p.text@, p.style),
        final(lines)@.len() == old(lines)@.len(),
{
    let ghost before = lines@;
    let mut last = lines.pop().unwrap();
    last.spans.push(p);
    lines.push(last);
    proof {
        assert(before.drop_last().push(last) == lines@);
        let lv = lines_view(before);
        assert(lines_view(lines@) =~~= lv.update(lv.len() - 1, lv.last().push((p.text@, p.style))));
    }
}

/// Starts a new, empty line.
fn new_line(lines: &mut Vec<RenderedLine>)
    ensures
        lines_view(final(lines)@) == lines_view(old(lines)@).push(Seq::empty()),
        final(lines)@.len() == old(lines)@.len() + 1,
{
    let ghost before = lines@;
    lines.push(RenderedLine { spans: Vec::new() });
    assert(lines_view(lines@) =~~= lines_view(before).push(Seq::empty()));
}

/// The index of the first newline at or after `start`, or the length.
fn newline_from(t: &Vec<char>, start: usize) -> (end: usize)
    requires
        start <= t@.len(),
    ensures
        end == start + next_char(t@.subrange(start as int, t@.len() as int), 0, '\n'),
        start <= end <= t@.len(),
        end < t@.len() ==> t@[end as int] == '\n',
{
    let n = t.len();
    let ghost rest = t@.subrange(start as int, n as int);
    let mut end = start;
    while end < n && t[end] != '\n'
        invariant
            n == t@.len(),
            start <= end <= n,
            next_char(rest, (end - start) as int, '\n') == next_char(rest, 0, '\n'),
            rest == t@.subrange(start as int, n as int),
        decreases n - end,
    {
        assert(rest[(end - start) as int] == t@[end as int]);
        end = end + 1;
    }
    proof {
        if end < n {
            assert(rest[(end - start) as int] == t@[end as int]);
        }
    }
    end
}

fn add_text_exec(lines: &mut Vec<RenderedLine>, text: &str, st: TextStyle)
    requires
        old(lines)@.len() > 0,
    ensures
        lines_view(final(lines)@) == add_text(lines_view(old(lines)@), text@, st),
        final(lines)@.len() > 0,
{
    let t = chars_of(text);
    let n = t.len();
    let mut start: usize = 0;
    let ghost whole = t@;
    assert(whole.subrange(0, n as int) =~= whole);
    while start <= n
        invariant
            whole == t@,
            whole == text@,
            n == whole.len(),
            start <= n,
            lines@.len() > 0,
            add_text(lines_view(lines@), whole.subrange(start as int, n as int), st) == add_text(
                lines_view(old(lines)@),
                whole,
                st,
            ),
        decreases n + 1 - start,
    {
        let ghost rest = whole.subrange(start as int, n as int);
        let ghost lv0 = lines_view(lines@);
        let end = newline_from(&t, start);
        proof {
            lemma_next_char(rest, 0, '\n');
        }
        let part = string_from_chars(vstd::slice::slice_subrange(t.as_slice(), start, end));
        assert(part@ =~= rest.subrange(0, (end - start) as int));
        if end > start {
            append_piece(lines, piece(part, st));
        }
        assert(lines_view(lines@) == push_piece(lv0, rest.subrange(0, (end - start) as int), st));
        if end >= n {
            assert(rest.subrange(0, (end - start) as int) =~= rest);
            assert(add_text(lv0, rest, st) == push_piece(lv0, rest, st));
            return;
        }
        new_line(lines);
        assert(rest.subrange((end - start) + 1, rest.len() as int) =~= whole.subrange(
            end + 1,
            n as int,
        ));
        start = end + 1;
    }
}

fn add_code_block(
    lines: &mut Vec<RenderedLine>,
    language: &Option<String>,
    content: &str,
)
    ensures
        lines_view(final(lines)@) == add_code_lines(
            match language {
                Some(l) => lines_view(old(lines)@).push(
                    seq![("  ["@ + l@ + "]"@, TextStyle { fg: Some(Color::DarkGray), ..plain_style() })],
                ),
                None => lines_view(old(lines)@),
            },
            text_lines(content@),
        ),
        final(lines)@.len() >= old(lines)@.len(),
{
    if let Some(lang) = language {
        let a = concat_str("  [", lang.as_str());
        let label = concat_str(a.as_str(), "]");
        let mut line: Vec<StyledText> = Vec::new();
        line.push(piece(label, TextStyle { fg: Some(Color::DarkGray), bg: None, bold: false, italic: false, underlined: false, crossed_out: false }));
        let ghost before = lines@;
        lines.push(RenderedLine { spans: line });
        assert(lines_view(lines@) =~~= lines_view(before).push(
            seq![("  ["@ + lang@ + "]"@, TextStyle { fg: Some(Color::DarkGray), ..plain_style() })],
        ));
    }
    let ghost base = lines_view(lines@);
    let c = chars_of(content);
    let n = c.len();
    let ghost whole = c@;
    let mut start: usize = 0;
    let ghost mut done: Seq<Seq<char>> = Seq::empty();
    assert(whole.subrange(0, n as int) =~= whole);
    while start < n
        invariant
            whole == c@,
            whole == content@,
            n == whole.len(),
            start <= n,
            lines_view(lines@) == add_code_lines(base, done),
            base == match language {
                Some(l) => lines_view(old(lines)@).push(
                    seq![("  ["@ + l@ + "]"@, TextStyle { fg: Some(Color::DarkGray), ..plain_style() })],
                ),
                None => lines_view(old(lines)@),
            },
            done + text_lines(whole.subrange(start as int, n as int)) == text_lines(whole),
            lines@.len() >= old(lines)@.len(),
        decreases n - start,
    {
        let ghost rest = whole.subrange(start as int, n as int);
        let mut end = start;
        while end < n && c[end] != '\n'
            invariant
                whole == c@,
                n == whole.len(),
                start <= end <= n,
                next_char(rest, (end - start) as int, '\n') == next_char(rest, 0, '\n'),
                rest == whole.subrange(start as int, n as int),
            decreases n - end,
        {
            assert(rest[(end - start) as int] == whole[end as int]);
            end = end + 1;
        }
        proof {
            lemma_next_char(rest, 0, '\n');
            if end < n {
                assert(rest[(end - start) as int] == whole[end as int]);
            }
        }
        let mut line_end = end;
        if end < n && end > start && c[end - 1] == '\r' {
            line_end = end - 1;
        }
        let text = string_from_chars(vstd::slice::slice_subrange(c.as_slice(), start, line_end));
        let ghost this_line = if end < n {
            let l = rest.subrange(0, (end - start) as int);
            if l.len() > 0 && l.last() == '\r' {
                l.drop_last()
            } else {
                l
            }
        } else {
            rest
        };
        proof {
            if end < n {
                if end > start && c@[end - 1] == '\r' {
                    assert(rest.subrange(0, (end - start) as int).last() == whole[end - 1]);
                    assert(text@ =~= rest.subrange(0, (end - start) as int).drop_last());
                } else {
                    assert(text@ =~= rest.subrange(0, (end - start) as int));
                }
                assert(rest.subrange((end - start) + 1, rest.len() as int) =~= whole.subrange(
                    end + 1,
                    n as int,
                ));
                assert(text_lines(rest) == seq![this_line] + text_lines(
                    whole.subrange(end + 1, n as int),
                ));
            } else {
                assert(text@ =~= rest);
                assert(text_lines(rest) == seq![rest]);
            }
        }
        let indented = concat_str("  ", text.as_str());
        let mut line: Vec<StyledText> = Vec::new();
        line.push(piece(indented, TextStyle { fg: Some(Color::Gray), bg: None, bold: false, italic: false, underlined: false, crossed_out: false }));
        let ghost before = lines@;
        lines.push(RenderedLine { spans: line });
        proof {
            let nd = done.push(this_line);
            assert(nd.drop_last() =~= done);
            assert(lines_view(lines@) =~~= lines_view(before).push(
                seq![("  "@ + this_line, TextStyle { fg: Some(Color::Gray), ..plain_style() })],
            ));
            done = nd;
        }
        if end >= n {
            assert(whole.subrange(n as int, n as int) =~= Seq::<char>::empty());
            assert(done + Seq::<Seq<char>>::empty() =~= done);
            assert(done =~= text_lines(whole));
            return;
        }
        assert(done + text_lines(whole.subrange(end + 1, n as int)) =~= done.drop_last() + (seq![this_line] + text_lines(whole.subrange(end + 1, n as int))));
        start = end + 1;
    }
    assert(whole.subrange(start as int, n as int) =~= Seq::<char>::empty());
    assert(done + Seq::<Seq<char>>::empty() =~= done);
}

fn with_prefix(prefix: &str, name: Option<String>, id: u64) -> (r: String)
    ensures
        r@ == prefix@ + match name {
            Some(n) => n@,
            None => decimal(id as nat),
        },
{
    match name {
        Some(n) => concat_str(prefix, n.as_str()),
        None => {
            let d = decimal_string(id);
            concat_str(prefix, d.as_str())
        },
    }
}

/// Renders one span onto `lines` in `base` style.
fn render_span<R: MentionResolver>(
    md_span: &MarkdownSpan,
    base: TextStyle,
    resolver: &R,
    lines: &mut Vec<RenderedLine>,
)
    requires
        old(lines)@.len() > 0,
    ensures
        lines_view(final(lines)@) == render_span_spec(lines_view(old(lines)@), span_of(*md_span), base, *resolver),
        final(lines)@.len() > 0,
    decreases md_span,
{
    match md_span {
        MarkdownSpan::Text(text) => {
            add_text_exec(lines, text.as_str(), base);
        },
        MarkdownSpan::Styled { content, style } => {
            let st = markdown_style_to_ratatui(*style, base);
            render_all(content, st, resolver, lines);
        },
        MarkdownSpan::InlineCode(code) => {
            append_piece(lines, piece(copy_str(code.as_str()), TextStyle { fg: Some(Color::Gray), bg: Some(Color::DarkGray), ..base }));
        },
        MarkdownSpan::CodeBlock { language, content } => {
            add_code_block(lines, language, content.as_str());
        },
        MarkdownSpan::UserMention(id) => {
            let display = with_prefix("@", resolver.resolve_user(*id), *id);
            append_piece(lines, piece(display, TextStyle { fg: Some(Color::LightBlue), bold: true, ..base }));
        },
        MarkdownSpan::ChannelMention(id) => {
            let display = with_prefix("#", resolver.resolve_channel(*id), *id);
            append_piece(lines, piece(display, TextStyle { fg: Some(Color::LightBlue), bold: true, ..base }));
        },
        MarkdownSpan::RoleMention(id) => {
            match resolver.resolve_role(*id) {
                Some((name, color)) => {
                    let r = ((color >> 16u32) & 0xFFu32) as u8;
                    let g = ((color >> 8u32) & 0xFFu32) as u8;
                    let b = (color & 0xFFu32) as u8;
                    let display = concat_str("@", name.as_str());
                    append_piece(lines, piece(display, TextStyle { fg: Some(Color::Rgb(r, g, b)), bold: true, ..base }));
                },
                None => {
                    let display = with_prefix("@", None, *id);
                    append_piece(lines, piece(display, TextStyle { fg: Some(Color::LightBlue), bold: true, ..base }));
                },
            }
        },
        MarkdownSpan::CustomEmoji { name, .. } => {
            let a = concat_str(":", name.as_str());
            let display = concat_str(a.as_str(), ":");
            append_piece(lines, piece(display, TextStyle { fg: Some(Color::Yellow), ..base }));
        },
        MarkdownSpan::Spoiler(inner) => {
            let st = TextStyle { fg: Some(Color::DarkGray), bg: Some(Color::DarkGray), ..base };
            render_all(inner, st, resolver, lines);
        },
    }
}

/// Renders spans in order onto `lines` in `base` style.
fn render_all<R: MentionResolver>(
    spans: &Vec<MarkdownSpan>,
    base: TextStyle,
    resolver: &R,
    lines: &mut Vec<RenderedLine>,
)
    requires
        old(lines)@.len() > 0,
    ensures
        lines_view(final(lines)@) == render_spans_spec(lines_view(old(lines)@), spans_of(spans@), base, *resolver),
        final(lines)@.len() > 0,
    decreases spans,
{
    let mut i: usize = 0;
    while i < spans.len()
        invariant
            i <= spans@.len(),
            lines@.len() > 0,
            lines_view(lines@) == render_spans_spec(
                lines_view(old(lines)@),
                spans_of(spans@.subrange(0, i as int)),
                base,
                *resolver,
            ),
        decreases spans@.len() - i,
    {
        proof {
            vstd::std_specs::vec::axiom_vec_index_decreases(*spans, i as int);
            let pre = spans@.subrange(0, i + 1);
            assert(pre.subrange(0, i as int) =~= spans@.subrange(0, i as int));
            let sp = spans_of(pre);
            assert(sp.subrange(0, sp.len() - 1) =~= spans_of(spans@.subrange(0, i as int)));
        }
        render_span(&spans[i], base, resolver, lines);
        i = i + 1;
    }
    assert(spans@.subrange(0, spans@.len() as int) =~= spans@);
}

/// Renders a markdown tree into styled lines; text starts on one empty line.
pub fn render<R: MentionResolver>(ast: &MarkdownAst, resolver: &R) -> (r: Vec<RenderedLine>)
    ensures
        lines_view(r@) == rendered(spans_of(ast.spans@), *resolver),
{
    let mut lines: Vec<RenderedLine> = Vec::new();
    lines.push(RenderedLine { spans: Vec::new() });
    assert(lines_view(lines@) =~~= seq![Seq::<Piece>::empty()]);
    render_all(&ast.spans, TextStyle { fg: None, bg: None, bold: false, italic: false, underlined: false, crossed_out: false }, resolver, &mut lines);
    lines
}

// ---------------------------------------------------------------------------
// Rendering messages, with the result kept on the message
// ---------------------------------------------------------------------------

/// The lines of a message's content: the ones kept on the message, or, when none are kept yet,
/// the content parsed and rendered (and then kept).
pub fn render_message_content<'a, R: MentionResolver>(
    message: &'a mut CachedMessage,
    resolver: &R,
) -> (r: &'a [RenderedLine])
    ensures
        match old(message).rendered {
            Some(v) => r@ == v@ && *final(message) == *old(message),
            None => {
                &&& lines_view(r@) == rendered(parsed(old(message).content@), *resolver)
                &&& final(message).rendered is Some
                &&& final(message).rendered.unwrap()@ == r@
                &&& *final(message) == (CachedMessage { rendered: final(message).rendered, ..*old(message) })
            },
        },
{
    if message.rendered.is_none() {
        let ast = parse(message.content.as_str());
        message.rendered = Some(render(&ast, resolver));
    }
    match &message.rendered {
        Some(v) => v.as_slice(),
        None => {
            proof {
                assert(false);
            }
            &[]
        },
    }
}

/// Drops the lines kept on a message (when it is edited).
pub fn invalidate_rendered(message: &mut CachedMessage)
    ensures
        *final(message) == (CachedMessage { rendered: None, ..*old(message) }),
{
    message.rendered = None;
}

/// A mention of a known role is drawn as `@` and the role's name, bold, in the role's colour:
/// its 0xRRGGBB value read as red from bits 16 to 23, green from bits 8 to 15 and blue from
/// bits 0 to 7.
pub proof fn law_role_mention_colour<R: MentionResolver>(
    lines: Seq<Seq<Piece>>,
    id: u64,
    base: TextStyle,
    r: R,
    name: Seq<char>,
    color: u32,
)
    requires
        lines.len() > 0,
        r.role_info(id) == Some((name, color)),
    ensures
        render_span_spec(lines, Span::RoleMention(id), base, r) == lines.update(
            lines.len() - 1,
            lines.last().push(
                (
                    "@"@ + name,
                    TextStyle {
                        fg: Some(
                            Color::Rgb(
                                ((color / 65536) % 256) as u8,
                                ((color / 256) % 256) as u8,
                                (color % 256) as u8,
                            ),
                        ),
                        bold: true,
                        ..base
                    },
                ),
            ),
        ),
{
    assert(((color >> 16u32) & 0xFFu32) == (color / 65536) % 256) by (bit_vector);
    assert(((color >> 8u32) & 0xFFu32) == (color / 256) % 256) by (bit_vector);
    assert((color & 0xFFu32) == color % 256) by (bit_vector);
}

} // verus!
