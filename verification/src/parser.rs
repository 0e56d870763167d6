use vstd::prelude::*;
use crate::markdown::{MarkdownAst, MarkdownSpan, MarkdownStyle, Span, span_of, spans_of};
use crate::text::concat_str;
use crate::text::{
    all_digits, chars_of, digits_value, is_digit, parse_u64, parse_u64_spec, string_from_chars, trim,
    trim_chars,
};

verus! {

// ---------------------------------------------------------------------------
// Scanning over a sequence of characters
// ---------------------------------------------------------------------------

/// The first index at or after `j` that holds `ch`, or the length if there is none.
pub open spec fn next_char(c: Seq<char>, j: int, ch: char) -> int
    decreases c.len() - j,
{
    if j >= c.len() {
        c.len() as int
    } else if c[j] == ch {
        j
    } else {
        next_char(c, j + 1, ch)
    }
}

/// The first index at or after `j` that holds two `ch` in a row, or the length if there is none.
pub open spec fn pair_from(c: Seq<char>, j: int, ch: char) -> int
    decreases c.len() - j,
{
    if j >= c.len() {
        c.len() as int
    } else if j + 1 < c.len() && c[j] == ch && c[j + 1] == ch {
        j
    } else {
        pair_from(c, j + 1, ch)
    }
}

/// The first index at or after `j` that starts three backticks, or the length if there is none.
pub open spec fn triple_from(c: Seq<char>, j: int) -> int
    decreases c.len() - j,
{
    if j + 2 >= c.len() {
        c.len() as int
    } else if c[j] == '`' && c[j + 1] == '`' && c[j + 2] == '`' {
        j
    } else {
        triple_from(c, j + 1)
    }
}

/// The first index at or after `j` that does not hold an ASCII digit, or the length.
pub open spec fn digits_end(c: Seq<char>, j: int) -> int
    decreases c.len() - j,
{
    if j >= c.len() {
        c.len() as int
    } else if !is_digit(c[j]) {
        j
    } else {
        digits_end(c, j + 1)
    }
}

/// The first index at or after `j` that holds `:` or `>`, or the length.
pub open spec fn name_end(c: Seq<char>, j: int) -> int
    decreases c.len() - j,
{
    if j >= c.len() {
        c.len() as int
    } else if c[j] == ':' || c[j] == '>' {
        j
    } else {
        name_end(c, j + 1)
    }
}

pub proof fn lemma_next_char(c: Seq<char>, j: int, ch: char)
    requires
        0 <= j <= c.len(),
    ensures
        j <= next_char(c, j, ch) <= c.len(),
        next_char(c, j, ch) < c.len() ==> c[next_char(c, j, ch)] == ch,
        forall|k: int| j <= k < next_char(c, j, ch) ==> c[k] != ch,
    decreases c.len() - j,
{
    if j < c.len() && c[j] != ch {
        lemma_next_char(c, j + 1, ch);
    }
}

pub proof fn lemma_pair_from(c: Seq<char>, j: int, ch: char)
    requires
        0 <= j <= c.len(),
    ensures
        j <= pair_from(c, j, ch) <= c.len(),
        pair_from(c, j, ch) < c.len() ==> pair_from(c, j, ch) + 1 < c.len(),
    decreases c.len() - j,
{
    if j < c.len() && !(j + 1 < c.len() && c[j] == ch && c[j + 1] == ch) {
        lemma_pair_from(c, j + 1, ch);
    }
}

pub proof fn lemma_triple_from(c: Seq<char>, j: int)
    requires
        0 <= j,
    ensures
        j + 2 < c.len() ==> j <= triple_from(c, j),
        triple_from(c, j) <= c.len(),
        triple_from(c, j) < c.len() ==> triple_from(c, j) + 2 < c.len(),
    decreases c.len() - j,
{
    if j + 2 < c.len() && !(c[j] == '`' && c[j + 1] == '`' && c[j + 2] == '`') {
        lemma_triple_from(c, j + 1);
    }
}

pub proof fn lemma_digits_end(c: Seq<char>, j: int)
    requires
        0 <= j,
    ensures
        j <= c.len() ==> j <= digits_end(c, j),
        digits_end(c, j) <= c.len(),
        forall|k: int| j <= k < digits_end(c, j) ==> is_digit(#[trigger] c[k]),
        digits_end(c, j) < c.len() ==> !is_digit(c[digits_end(c, j)]),
    decreases c.len() - j,
{
    if j < c.len() && is_digit(c[j]) {
        lemma_digits_end(c, j + 1);
    }
}

pub proof fn lemma_name_end(c: Seq<char>, j: int)
    requires
        0 <= j,
    ensures
        j <= c.len() ==> j <= name_end(c, j),
        name_end(c, j) <= c.len(),
    decreases c.len() - j,
{
    if j < c.len() && !(c[j] == ':' || c[j] == '>') {
        lemma_name_end(c, j + 1);
    }
}

// ---------------------------------------------------------------------------
// Closing delimiters
// ---------------------------------------------------------------------------

/// Where the closing `d` is found when scanning from `i`: backtick-enclosed regions are skipped,
/// and a single `*` (or `_`) that starts a closed `**` (or `__`) pair is stepped over together
/// with that pair.
pub open spec fn closing(c: Seq<char>, d: Seq<char>, i: int) -> Option<int>
    decreases c.len() - i,
{
    if i < 0 || i + d.len() > c.len() || i >= c.len() {
        None
    } else if c[i] == '`' && next_char(c, i + 1, '`') < c.len() {
        proof {
            lemma_next_char(c, i + 1, '`');
        }
        closing(c, d, next_char(c, i + 1, '`') + 1)
    } else if c.subrange(i, i + d.len()) == d {
        if d == seq!['*'] && i + 1 < c.len() && c[i + 1] == '*' && pair_from(c, i + 2, '*')
            < c.len() {
            proof {
                lemma_pair_from(c, i + 2, '*');
            }
            closing(c, d, pair_from(c, i + 2, '*') + 2)
        } else if d == seq!['_'] && i + 1 < c.len() && c[i + 1] == '_' && pair_from(c, i + 2, '_')
            < c.len() {
            proof {
                lemma_pair_from(c, i + 2, '_');
            }
            closing(c, d, pair_from(c, i + 2, '_') + 2)
        } else {
            Some(i)
        }
    } else {
        closing(c, d, i + 1)
    }
}

/// A closing delimiter lies inside the text, at or after where the scan starts.
pub proof fn lemma_closing(c: Seq<char>, d: Seq<char>, i: int)
    ensures
        closing(c, d, i) matches Some(k) ==> 0 <= i <= k && k + d.len() <= c.len()
            && c.subrange(k, k + d.len()) == d,
    decreases c.len() - i,
{
    if i < 0 || i + d.len() > c.len() || i >= c.len() {
    } else if c[i] == '`' && next_char(c, i + 1, '`') < c.len() {
        lemma_next_char(c, i + 1, '`');
        lemma_closing(c, d, next_char(c, i + 1, '`') + 1);
    } else if c.subrange(i, i + d.len()) == d {
        if d == seq!['*'] && i + 1 < c.len() && c[i + 1] == '*' && pair_from(c, i + 2, '*')
            < c.len() {
            lemma_pair_from(c, i + 2, '*');
            lemma_closing(c, d, pair_from(c, i + 2, '*') + 2);
        } else if d == seq!['_'] && i + 1 < c.len() && c[i + 1] == '_' && pair_from(c, i + 2, '_')
            < c.len() {
            lemma_pair_from(c, i + 2, '_');
            lemma_closing(c, d, pair_from(c, i + 2, '_') + 2);
        }
    } else {
        lemma_closing(c, d, i + 1);
    }
}

/// Finds the closing `delimiter` from `start`; returns the text between `start` and it, and the
/// position just after it. The delimiter is not empty.
pub fn find_closing(chars: &[char], start: usize, delimiter: &str) -> (r: Option<(String, usize)>)
    requires
        delimiter@.len() > 0,
    ensures
        match r {
            Some((content, end)) => {
                &&& end >= delimiter@.len()
                &&& closing(chars@, delimiter@, start as int) == Some(end - delimiter@.len())
                &&& content@ == chars@.subrange(start as int, end - delimiter@.len())
            },
            None => closing(chars@, delimiter@, start as int) is None,
        },
{
    let delim_chars = chars_of(delimiter);
    let delim_len = delim_chars.len();
    let n = chars.len();
    let ghost c = chars@;
    let ghost d = delimiter@;
    let is_star = delim_len == 1 && delim_chars[0] == '*';
    let is_under = delim_len == 1 && delim_chars[0] == '_';
    proof {
        if delim_len == 1 {
            assert(delim_chars@[0] == '*' ==> d =~= seq!['*']);
            assert(delim_chars@[0] == '_' ==> d =~= seq!['_']);
        }
    }
    assert(is_star <==> d == seq!['*']);
    assert(is_under <==> d == seq!['_']);
    let mut i = start;
    while i <= n && delim_len <= n - i
        invariant
            c == chars@,
            d == delimiter@,
            d == delim_chars@,
            delim_len == d.len(),
            delim_len > 0,
            n == c.len(),
            is_star <==> d == seq!['*'],
            is_under <==> d == seq!['_'],
            start <= i,
            closing(c, d, i as int) == closing(c, d, start as int),
        decreases n - i,
    {
        if chars[i] == '`' {
            let mut j = i + 1;
            while j < n && chars[j] != '`'
                invariant
                    c == chars@,
                    n == c.len(),
                    i < n,
                    i + 1 <= j <= n,
                    next_char(c, j as int, '`') == next_char(c, i + 1, '`'),
                decreases n - j,
            {
                j = j + 1;
            }
            if j < n {
                i = j + 1;
                continue;
            }
        }
        let mut m: usize = 0;
        while m < delim_len && chars[i + m] == delim_chars[m]
            invariant
                c == chars@,
                d == delim_chars@,
                delim_len == d.len(),
                n == c.len(),
                i + delim_len <= n,
                m <= delim_len,
                forall|q: int| 0 <= q < m ==> c[i + q] == d[q],
            decreases delim_len - m,
        {
            m = m + 1;
        }
        let matches = m == delim_len;
        if matches {
            assert(c.subrange(i as int, i + d.len()) =~= d);
            if is_star && i + 1 < n && chars[i + 1] == '*' {
                let mut j = i + 2;
                while j < n && !(j + 1 < n && chars[j] == '*' && chars[j + 1] == '*')
                    invariant
                        c == chars@,
                        n == c.len(),
                        i + 2 <= j <= n,
                        pair_from(c, j as int, '*') == pair_from(c, i + 2, '*'),
                    decreases n - j,
                {
                    j = j + 1;
                }
                if j < n {
                    i = j + 2;
                    continue;
                }
            }
            if is_under && i + 1 < n && chars[i + 1] == '_' {
                let mut j = i + 2;
                while j < n && !(j + 1 < n && chars[j] == '_' && chars[j + 1] == '_')
                    invariant
                        c == chars@,
                        n == c.len(),
                        i + 2 <= j <= n,
                        pair_from(c, j as int, '_') == pair_from(c, i + 2, '_'),
                    decreases n - j,
                {
                    j = j + 1;
                }
                if j < n {
                    i = j + 2;
                    continue;
                }
            }
            let content = string_from_chars(vstd::slice::slice_subrange(chars, start, i));
            return Some((content, i + delim_len));
        }
        assert(c[i + m] != d[m as int]);
        assert(c.subrange(i as int, i + d.len())[m as int] != d[m as int]);
        i = i + 1;
    }
    None
}

// ---------------------------------------------------------------------------
// Inline code, code blocks, mentions and custom emoji
// ---------------------------------------------------------------------------

/// Inline code opened by the backtick at `s`: its text and the position after the closing
/// backtick.
pub open spec fn inline_code(c: Seq<char>, s: int) -> Option<(Seq<char>, int)> {
    if s < 0 || s >= c.len() {
        None
    } else {
        let t = next_char(c, s + 1, '`');
        if t < c.len() {
            Some((c.subrange(s + 1, t), t + 1))
        } else {
            None
        }
    }
}

/// Parses inline code whose opening backtick is at `start`; returns its text and the position
/// after the closing backtick.
pub fn parse_inline_code(chars: &[char], start: usize) -> (r: Option<(String, usize)>)
    ensures
        match r {
            Some((code, end)) => inline_code(chars@, start as int) == Some((code@, end as int)),
            None => inline_code(chars@, start as int) is None,
        },
{
    let n = chars.len();
    if start >= n {
        return None;
    }
    let ghost c = chars@;
    let mut i = start + 1;
    while i < n
        invariant
            c == chars@,
            n == c.len(),
            start < n,
            start + 1 <= i <= n,
            next_char(c, i as int, '`') == next_char(c, start + 1, '`'),
        decreases n - i,
    {
        if chars[i] == '`' {
            let content = string_from_chars(vstd::slice::slice_subrange(chars, start + 1, i));
            return Some((content, i + 1));
        }
        i = i + 1;
    }
    None
}

/// An identifier of ASCII digits from `s` up to a closing `>`: its value (not zero, fitting in
/// 64 bits) and the position after the `>`.
pub open spec fn id_until_close(c: Seq<char>, s: int) -> Option<(u64, int)> {
    let e = digits_end(c, s);
    if 0 <= s < e && e < c.len() && c[e] == '>' && 0 < digits_value(c.subrange(s, e))
        <= u64::MAX {
        Some((digits_value(c.subrange(s, e)) as u64, e + 1))
    } else {
        None
    }
}

/// Parses digits from `start` up to a `>`; returns the non-zero number and the position after
/// the `>`.
pub fn parse_id_until_close(chars: &[char], start: usize) -> (r: Option<(u64, usize)>)
    ensures
        match r {
            Some((id, end)) => id_until_close(chars@, start as int) == Some((id, end as int)),
            None => id_until_close(chars@, start as int) is None,
        },
{
    let n = chars.len();
    let ghost c = chars@;
    let mut i = start;
    while i < n && '0' <= chars[i] && chars[i] <= '9'
        invariant
            c == chars@,
            n == c.len(),
            start <= i,
            i > start ==> i <= n,
            digits_end(c, i as int) == digits_end(c, start as int),
        decreases n - i,
    {
        i = i + 1;
    }
    if i > start && i < n && chars[i] == '>' {
        let id_str = vstd::slice::slice_subrange(chars, start, i);
        proof {
            lemma_digits_end(c, start as int);
            assert(all_digits(id_str@));
            assert(is_digit(id_str@[0]));
            assert(parse_u64_spec(id_str@) == (if digits_value(id_str@) <= u64::MAX {
                Some(digits_value(id_str@) as u64)
            } else {
                None
            }));
        }
        match parse_u64(id_str) {
            Some(id) => {
                if id > 0 {
                    return Some((id, i + 1));
                }
            },
            None => {},
        }
    }
    None
}

/// A mention opened by the `<` at `s`: `<@id>` or `<@!id>` for a user, `<@&id>` for a role,
/// `<#id>` for a channel.
pub open spec fn mention(c: Seq<char>, s: int) -> Option<(Span, int)> {
    if s < 0 || s + 1 >= c.len() {
        None
    } else if c[s + 1] == '@' {
        if s + 2 >= c.len() {
            None
        } else if c[s + 2] == '&' {
            match id_until_close(c, s + 3) {
                Some((id, e)) => Some((Span::RoleMention(id), e)),
                None => None,
            }
        } else {
            let j = if c[s + 2] == '!' {
                s + 3
            } else {
                s + 2
            };
            match id_until_close(c, j) {
                Some((id, e)) => Some((Span::UserMention(id), e)),
                None => None,
            }
        }
    } else if c[s + 1] == '#' {
        match id_until_close(c, s + 2) {
            Some((id, e)) => Some((Span::ChannelMention(id), e)),
            None => None,
        }
    } else {
        None
    }
}

/// Parses a mention whose `<` is at `start`.
pub fn parse_mention(chars: &[char], start: usize) -> (r: Option<(MarkdownSpan, usize)>)
    ensures
        match r {
            Some((span, end)) => mention(chars@, start as int) == Some((span_of(span), end as int)),
            None => mention(chars@, start as int) is None,
        },
{
    let n = chars.len();
    if start >= n {
        return None;
    }
    let mut i = start + 1;
    if i >= n {
        return None;
    }
    if chars[i] == '@' {
        i = i + 1;
        if i >= n {
            return None;
        }
        if chars[i] == '&' {
            i = i + 1;
            return match parse_id_until_close(chars, i) {
                Some((id, end)) => Some((MarkdownSpan::RoleMention(id), end)),
                None => None,
            };
        }
        if chars[i] == '!' {
            i = i + 1;
        }
        return match parse_id_until_close(chars, i) {
            Some((id, end)) => Some((MarkdownSpan::UserMention(id), end)),
            None => None,
        };
    }
    if chars[i] == '#' {
        i = i + 1;
        return match parse_id_until_close(chars, i) {
            Some((id, end)) => Some((MarkdownSpan::ChannelMention(id), end)),
            None => None,
        };
    }
    None
}

/// A custom emoji opened by the `<` at `s`: `<:name:id>`, or `<a:name:id>` when animated.
pub open spec fn custom_emoji(c: Seq<char>, s: int) -> Option<(Span, int)> {
    let n = c.len();
    let animated = s + 1 < n && c[s + 1] == 'a';
    let i = if animated {
        s + 2
    } else {
        s + 1
    };
    if s < 0 || i >= n || c[i] != ':' {
        None
    } else {
        let ns = i + 1;
        let ne = name_end(c, ns);
        if ne >= n || c[ne] != ':' || ne == ns {
            None
        } else {
            let is = ne + 1;
            let ie = digits_end(c, is);
            if ie >= n || c[ie] != '>' || ie == is || digits_value(c.subrange(is, ie)) > u64::MAX {
                None
            } else {
                Some(
                    (
                        Span::CustomEmoji {
                            name: c.subrange(ns, ne),
                            id: digits_value(c.subrange(is, ie)) as u64,
                            animated,
                        },
                        ie + 1,
                    ),
                )
            }
        }
    }
}

/// Parses a custom emoji whose `<` is at `start`.
pub fn parse_custom_emoji(chars: &[char], start: usize) -> (r: Option<(MarkdownSpan, usize)>)
    ensures
        match r {
            Some((span, end)) => custom_emoji(chars@, start as int) == Some(
                (span_of(span), end as int),
            ),
            None => custom_emoji(chars@, start as int) is None,
        },
{
    let n = chars.len();
    let ghost c = chars@;
    if start >= n {
        return None;
    }
    let mut i = start + 1;
    let animated = if i < n && chars[i] == 'a' {
        i = i + 1;
        true
    } else {
        false
    };
    if i >= n || chars[i] != ':' {
        return None;
    }
    i = i + 1;
    let name_start = i;
    while i < n && chars[i] != ':' && chars[i] != '>'
        invariant
            c == chars@,
            n == c.len(),
            name_start <= i <= n,
            name_end(c, i as int) == name_end(c, name_start as int),
        decreases n - i,
    {
        i = i + 1;
    }
    if i >= n || chars[i] != ':' {
        return None;
    }
    if i == name_start {
        return None;
    }
    let name = string_from_chars(vstd::slice::slice_subrange(chars, name_start, i));
    i = i + 1;
    let id_start = i;
    while i < n && '0' <= chars[i] && chars[i] <= '9'
        invariant
            c == chars@,
            n == c.len(),
            id_start <= i <= n,
            digits_end(c, i as int) == digits_end(c, id_start as int),
        decreases n - i,
    {
        i = i + 1;
    }
    if i >= n || chars[i] != '>' || i == id_start {
        return None;
    }
    let id_str = vstd::slice::slice_subrange(chars, id_start, i);
    proof {
        lemma_digits_end(c, id_start as int);
        assert(all_digits(id_str@));
        assert(is_digit(id_str@[0]));
    }
    let id = match parse_u64(id_str) {
        Some(v) => v,
        None => {
            return None;
        },
    };
    i = i + 1;
    Some((MarkdownSpan::CustomEmoji { name, id, animated }, i))
}

/// A code block opened by the three backticks at `s`: the text up to the next three backticks;
/// a first line, trimmed, names the language when it is not empty.
pub open spec fn code_block(c: Seq<char>, s: int) -> Option<(Span, int)> {
    let t = triple_from(c, s + 3);
    if s < 0 || t >= c.len() {
        None
    } else {
        let raw = c.subrange(s + 3, t);
        let nl = next_char(raw, 0, '\n');
        if nl < raw.len() {
            let lang = trim(raw.subrange(0, nl));
            Some(
                (
                    Span::CodeBlock {
                        language: if lang.len() == 0 {
                            None
                        } else {
                            Some(lang)
                        },
                        content: raw.subrange(nl + 1, raw.len() as int),
                    },
                    t + 3,
                ),
            )
        } else {
            Some((Span::CodeBlock { language: None, content: raw }, t + 3))
        }
    }
}

/// Parses a code block whose three opening backticks start at `start`.
pub fn parse_code_block(chars: &[char], start: usize) -> (r: Option<(MarkdownSpan, usize)>)
    ensures
        match r {
            Some((span, end)) => code_block(chars@, start as int) == Some(
                (span_of(span), end as int),
            ),
            None => code_block(chars@, start as int) is None,
        },
{
    let n = chars.len();
    let ghost c = chars@;
    if start > n || n - start < 3 {
        proof {
            lemma_triple_from(c, start + 3);
        }
        return None;
    }
    let block_start = start + 3;
    let mut i = block_start;
    while i < n && n - i > 2
        invariant
            c == chars@,
            n == c.len(),
            block_start == start + 3,
            block_start <= i <= n,
            triple_from(c, i as int) == triple_from(c, block_start as int),
        decreases n - i,
    {
        if chars[i] == '`' && chars[i + 1] == '`' && chars[i + 2] == '`' {
            let raw = vstd::slice::slice_subrange(chars, block_start, i);
            let mut p: usize = 0;
            while p < raw.len() && raw[p] != '\n'
                invariant
                    p <= raw@.len(),
                    next_char(raw@, p as int, '\n') == next_char(raw@, 0, '\n'),
                decreases raw@.len() - p,
            {
                p = p + 1;
            }
            if p < raw.len() {
                let lang = trim_chars(vstd::slice::slice_subrange(raw, 0, p));
                let language = if lang.len() == 0 {
                    None
                } else {
                    Some(string_from_chars(lang.as_slice()))
                };
                let content = string_from_chars(vstd::slice::slice_subrange(raw, p + 1, raw.len()));
                return Some((MarkdownSpan::CodeBlock { language, content }, i + 3));
            }
            let content = string_from_chars(raw);
            return Some((MarkdownSpan::CodeBlock { language: None, content }, i + 3));
        }
        i = i + 1;
    }
    None
}

// ---------------------------------------------------------------------------
// Emphasis, spoilers and the whole inline grammar
// ---------------------------------------------------------------------------

/// What `char::is_alphanumeric` answers for a character (Unicode `Alphabetic` or `Numeric`).
pub uninterp spec fn alphanumeric(c: char) -> bool;

/// Calls `char::is_alphanumeric` from std. Trusted: the answer is the named property of the
/// character.
#[verifier::external_body]
fn is_alphanumeric(c: char) -> (r: bool)
    ensures
        r == alphanumeric(c),
{
    c.is_alphanumeric()
}

/// An ASCII letter or digit.
pub open spec fn ascii_alphanumeric(ch: char) -> bool {
    ('a' <= ch && ch <= 'z') || ('A' <= ch && ch <= 'Z') || ('0' <= ch && ch <= '9')
}

/// A character that continues a word: a letter or digit (on ASCII, exactly `a`-`z`, `A`-`Z`,
/// `0`-`9`, as std documents; beyond ASCII, Unicode's alphanumeric property) or `_`.
pub open spec fn word_char(ch: char) -> bool {
    ch == '_' || if (ch as u32) < 128 {
        ascii_alphanumeric(ch)
    } else {
        alphanumeric(ch)
    }
}

/// Whether a character continues a word.
fn is_word_char(ch: char) -> (r: bool)
    ensures
        r == word_char(ch),
{
    if ch == '_' {
        true
    } else if (ch as u32) < 128 {
        ('a' <= ch && ch <= 'z') || ('A' <= ch && ch <= 'Z') || ('0' <= ch && ch <= '9')
    } else {
        is_alphanumeric(ch)
    }
}

/// A style with the given flags.
pub open spec fn style(bold: bool, italic: bool, underline: bool, strikethrough: bool) -> MarkdownStyle {
    MarkdownStyle { bold, italic, underline, strikethrough }
}

/// Whether `c` holds `d` at `i`.
pub open spec fn opens(c: Seq<char>, i: int, d: Seq<char>) -> bool {
    0 <= i && i + d.len() <= c.len() && c.subrange(i, i + d.len()) == d
}

/// Emphasis opened by `d` at `i`, closed later with non-empty text between: the position of the
/// closing delimiter.
pub open spec fn delimited(c: Seq<char>, i: int, d: Seq<char>) -> Option<int> {
    if d.len() > 0 && opens(c, i, d) {
        match closing(c, d, i + d.len()) {
            Some(k) => if k > i + d.len() {
                Some(k)
            } else {
                None
            },
            None => None,
        }
    } else {
        None
    }
}

/// Italic opened by a single `_` at `i` that neither follows a word character nor is followed
/// by `_`, closed by a `_` not followed by a word character: the position of the closing `_`.
pub open spec fn underscore_italic(c: Seq<char>, i: int) -> Option<int> {
    let n = c.len();
    if 0 <= i < n && c[i] == '_' && !(i + 1 < n && c[i + 1] == '_') && !(i > 0 && word_char(
        c[i - 1],
    )) {
        match closing(c, seq!['_'], i + 1) {
            Some(k) => if k > i + 1 && !(k + 1 < n && word_char(c[k + 1])) {
                Some(k)
            } else {
                None
            },
            None => None,
        }
    } else {
        None
    }
}

/// Three backticks at `i`.
pub open spec fn triple_at(c: Seq<char>, i: int) -> bool {
    0 <= i && i + 2 < c.len() && c[i] == '`' && c[i + 1] == '`' && c[i + 2] == '`'
}

/// What may open a custom emoji at `i`: `<:` or `<a:`.
pub open spec fn emoji_open(c: Seq<char>, i: int) -> bool {
    0 <= i < c.len() && c[i] == '<' && i + 1 < c.len() && (c[i + 1] == ':' || (c[i + 1] == 'a'
        && i + 2 < c.len() && c[i + 2] == ':'))
}

/// What may open a mention at `i`: `<@` or `<#`.
pub open spec fn mention_open(c: Seq<char>, i: int) -> bool {
    0 <= i < c.len() && c[i] == '<' && i + 1 < c.len() && (c[i + 1] == '@' || c[i + 1] == '#')
}

/// The constructs that can start at a position.
pub enum Opening {
    CodeBlock,
    InlineCode,
    Emoji,
    Mention,
    Styled(Seq<char>, MarkdownStyle),
    UnderscoreItalic,
    Spoiler,
}

/// Inline code, a custom emoji or a mention at `i`, tried in that order.
pub open spec fn token_opening(c: Seq<char>, i: int) -> Option<Opening> {
    if 0 <= i < c.len() && c[i] == '`' && inline_code(c, i) is Some {
        Some(Opening::InlineCode)
    } else if emoji_open(c, i) && custom_emoji(c, i) is Some {
        Some(Opening::Emoji)
    } else if mention_open(c, i) && mention(c, i) is Some {
        Some(Opening::Mention)
    } else {
        None
    }
}

/// Emphasis or a spoiler at `i`, tried in order: `***`, `**`, `*`, `__`, `_`, `||`, `~~`.
pub open spec fn emphasis_opening(c: Seq<char>, i: int) -> Option<Opening> {
    if delimited(c, i, seq!['*', '*', '*']) is Some {
        Some(Opening::Styled(seq!['*', '*', '*'], style(true, true, false, false)))
    } else if delimited(c, i, seq!['*', '*']) is Some {
        Some(Opening::Styled(seq!['*', '*'], style(true, false, false, false)))
    } else if delimited(c, i, seq!['*']) is Some {
        Some(Opening::Styled(seq!['*'], style(false, true, false, false)))
    } else if delimited(c, i, seq!['_', '_']) is Some {
        Some(Opening::Styled(seq!['_', '_'], style(false, false, true, false)))
    } else if underscore_italic(c, i) is Some {
        Some(Opening::UnderscoreItalic)
    } else if delimited(c, i, seq!['|', '|']) is Some {
        Some(Opening::Spoiler)
    } else if delimited(c, i, seq!['~', '~']) is Some {
        Some(Opening::Styled(seq!['~', '~'], style(false, false, false, true)))
    } else {
        None
    }
}

/// The construct that starts at `i`: a code block where three backticks open one (three
/// backticks that open none give no construct), else inline code, a custom emoji or a mention,
/// else emphasis or a spoiler.
pub open spec fn opening(c: Seq<char>, i: int) -> Option<Opening> {
    if !(0 <= i < c.len()) {
        None
    } else if triple_at(c, i) {
        if code_block(c, i) is Some {
            Some(Opening::CodeBlock)
        } else {
            None
        }
    } else if token_opening(c, i) is Some {
        token_opening(c, i)
    } else {
        emphasis_opening(c, i)
    }
}

/// The position after the construct `o` that starts at `i`.
pub open spec fn opening_end(c: Seq<char>, i: int, o: Opening) -> int {
    match o {
        Opening::CodeBlock => match code_block(c, i) {
            Some((_, e)) => e,
            None => i,
        },
        Opening::InlineCode => match inline_code(c, i) {
            Some((_, e)) => e,
            None => i,
        },
        Opening::Emoji => match custom_emoji(c, i) {
            Some((_, e)) => e,
            None => i,
        },
        Opening::Mention => match mention(c, i) {
            Some((_, e)) => e,
            None => i,
        },
        Opening::Styled(d, _) => match delimited(c, i, d) {
            Some(k) => k + d.len(),
            None => i,
        },
        Opening::UnderscoreItalic => match underscore_italic(c, i) {
            Some(k) => k + 1,
            None => i,
        },
        Opening::Spoiler => match delimited(c, i, seq!['|', '|']) {
            Some(k) => k + 2,
            None => i,
        },
    }
}

/// The text that a span-less run of characters becomes: nothing, or one text span.
pub open spec fn flush(cur: Seq<char>) -> Seq<Span> {
    if cur.len() == 0 {
        seq![]
    } else {
        seq![Span::Text(cur)]
    }
}

/// The span of the construct `o` that starts at `i`; emphasis and spoilers hold the parse of
/// the text between their delimiters.
pub open spec fn opening_span(c: Seq<char>, i: int, o: Opening) -> Span
    decreases c.len(), 0int,
{
    match o {
        Opening::CodeBlock => match code_block(c, i) {
            Some((sp, _)) => sp,
            None => Span::Text(seq![]),
        },
        Opening::InlineCode => match inline_code(c, i) {
            Some((t, _)) => Span::InlineCode(t),
            None => Span::Text(seq![]),
        },
        Opening::Emoji => match custom_emoji(c, i) {
            Some((sp, _)) => sp,
            None => Span::Text(seq![]),
        },
        Opening::Mention => match mention(c, i) {
            Some((sp, _)) => sp,
            None => Span::Text(seq![]),
        },
        Opening::Styled(d, st) => match delimited(c, i, d) {
            Some(k) => {
                proof {
                    lemma_closing(c, d, i + d.len());
                }
                Span::Styled { content: go(c.subrange(i + d.len(), k), 0, seq![]), style: st }
            },
            None => Span::Text(seq![]),
        },
        Opening::UnderscoreItalic => match underscore_italic(c, i) {
            Some(k) => {
                proof {
                    lemma_closing(c, seq!['_'], i + 1);
                }
                Span::Styled {
                    content: go(c.subrange(i + 1, k), 0, seq![]),
                    style: style(false, true, false, false),
                }
            },
            None => Span::Text(seq![]),
        },
        Opening::Spoiler => match delimited(c, i, seq!['|', '|']) {
            Some(k) => {
                proof {
                    lemma_closing(c, seq!['|', '|'], i + 2);
                }
                Span::Spoiler(go(c.subrange(i + 2, k), 0, seq![]))
            },
            None => Span::Text(seq![]),
        },
    }
}

/// The spans of `c` from `i` on, with `cur` the text gathered so far and not yet emitted.
pub open spec fn go(c: Seq<char>, i: int, cur: Seq<char>) -> Seq<Span>
    decreases c.len(), c.len() - i,
{
    if i < 0 || i >= c.len() {
        flush(cur)
    } else {
        match opening(c, i) {
            Some(o) => {
                proof {
                    lemma_opening_end(c, i);
                }
                flush(cur) + seq![opening_span(c, i, o)] + go(c, opening_end(c, i, o), seq![])
            },
            None => if triple_at(c, i) {
                go(c, i + 3, cur + seq!['`', '`', '`'])
            } else {
                go(c, i + 1, cur.push(c[i]))
            },
        }
    }
}

/// A custom emoji ends after where it starts, inside the text.
proof fn lemma_emoji_end(c: Seq<char>, i: int)
    ensures
        custom_emoji(c, i) matches Some((_, e)) ==> i < e <= c.len(),
{
    if 0 <= i < c.len() {
        let animated = i + 1 < c.len() && c[i + 1] == 'a';
        let j = if animated {
            i + 2
        } else {
            i + 1
        };
        if j < c.len() {
            lemma_name_end(c, j + 1);
            let ne = name_end(c, j + 1);
            if ne < c.len() {
                lemma_digits_end(c, ne + 1);
            }
        }
    }
}

/// A construct ends after where it starts, inside the text.
pub proof fn lemma_opening_end(c: Seq<char>, i: int)
    ensures
        opening(c, i) matches Some(o) ==> i < opening_end(c, i, o) <= c.len(),
{
    match opening(c, i) {
        Some(o) => match o {
            Opening::CodeBlock => lemma_triple_from(c, i + 3),
            Opening::InlineCode => lemma_next_char(c, i + 1, '`'),
            Opening::Emoji => lemma_emoji_end(c, i),
            Opening::Mention => {},
            Opening::Styled(d, _) => lemma_closing(c, d, i + d.len()),
            Opening::UnderscoreItalic => lemma_closing(c, seq!['_'], i + 1),
            Opening::Spoiler => lemma_closing(c, seq!['|', '|'], i + 2),
        },
        None => {},
    }
}

proof fn lemma_opens1(c: Seq<char>, i: int, a: char)
    ensures
        0 <= i < c.len() ==> (opens(c, i, seq![a]) <==> c[i] == a),
{
    if 0 <= i < c.len() {
        if c[i] == a {
            assert(c.subrange(i, i + 1) =~= seq![a]);
        }
        if opens(c, i, seq![a]) {
            assert(c.subrange(i, i + 1)[0] == seq![a][0]);
        }
    }
}

proof fn lemma_opens2(c: Seq<char>, i: int, a: char, b: char)
    ensures
        0 <= i && i + 1 < c.len() ==> (opens(c, i, seq![a, b]) <==> c[i] == a && c[i + 1] == b),
        i + 1 >= c.len() ==> !opens(c, i, seq![a, b]),
{
    if 0 <= i && i + 1 < c.len() {
        if c[i] == a && c[i + 1] == b {
            assert(c.subrange(i, i + 2) =~= seq![a, b]);
        }
        if opens(c, i, seq![a, b]) {
            assert(c.subrange(i, i + 2)[0] == seq![a, b][0]);
            assert(c.subrange(i, i + 2)[1] == seq![a, b][1]);
        }
    }
}

proof fn lemma_opens3(c: Seq<char>, i: int, a: char)
    ensures
        0 <= i && i + 2 < c.len() ==> (opens(c, i, seq![a, a, a]) <==> c[i] == a && c[i + 1] == a
            && c[i + 2] == a),
        i + 2 >= c.len() ==> !opens(c, i, seq![a, a, a]),
{
    if 0 <= i && i + 2 < c.len() {
        if c[i] == a && c[i + 1] == a && c[i + 2] == a {
            assert(c.subrange(i, i + 3) =~= seq![a, a, a]);
        }
        if opens(c, i, seq![a, a, a]) {
            assert(c.subrange(i, i + 3)[0] == seq![a, a, a][0]);
            assert(c.subrange(i, i + 3)[1] == seq![a, a, a][1]);
            assert(c.subrange(i, i + 3)[2] == seq![a, a, a][2]);
        }
    }
}

/// The model of a sequence of spans grows by the model of what is pushed.
pub proof fn lemma_spans_of_push(v: Seq<MarkdownSpan>, x: MarkdownSpan)
    ensures
        spans_of(v.push(x)) == spans_of(v).push(span_of(x)),
{
    assert(v.push(x).subrange(0, v.len() as int) =~= v);
}

/// Emits the pending text, if any, then `span`.
fn emit(spans: &mut Vec<MarkdownSpan>, cur: &mut Vec<char>, span: MarkdownSpan)
    ensures
        spans_of(final(spans)@) == spans_of(old(spans)@) + flush(old(cur)@) + seq![span_of(span)],
        final(cur)@ == Seq::<char>::empty(),
{
    let ghost before = spans_of(spans@);
    if cur.len() > 0 {
        let text = string_from_chars(cur.as_slice());
        proof {
            lemma_spans_of_push(spans@, MarkdownSpan::Text(text));
        }
        spans.push(MarkdownSpan::Text(text));
        assert(spans_of(spans@) =~= before + flush(old(cur)@));
    } else {
        assert(spans_of(spans@) =~= before + flush(old(cur)@));
    }
    let ghost mid = spans_of(spans@);
    proof {
        lemma_spans_of_push(spans@, span);
    }
    spans.push(span);
    assert(spans_of(spans@) =~= mid + seq![span_of(span)]);
    *cur = Vec::new();
}

/// Inline code, a custom emoji or a mention starting at `i`: its span and the position after it.
fn token_at(chars: &Vec<char>, i: usize) -> (r: Option<(MarkdownSpan, usize)>)
    requires
        i < chars@.len(),
    ensures
        match r {
            Some((span, end)) => token_opening(chars@, i as int) matches Some(o) && opening_end(
                chars@,
                i as int,
                o,
            ) == end && opening_span(chars@, i as int, o) == span_of(span),
            None => token_opening(chars@, i as int) is None,
        },
{
    let len = chars.len();
    // Inline code
    if chars[i] == '`' {
        if let Some((code, end)) = parse_inline_code(chars.as_slice(), i) {
            return Some((MarkdownSpan::InlineCode(code), end));
        }
    }
    // Custom emoji
    if chars[i] == '<' && i + 1 < len && (chars[i + 1] == ':' || (chars[i + 1] == 'a' && i + 2
        < len && chars[i + 2] == ':')) {
        if let Some((emoji, end)) = parse_custom_emoji(chars.as_slice(), i) {
            return Some((emoji, end));
        }
    }
    // Mentions
    if chars[i] == '<' && i + 1 < len && (chars[i + 1] == '@' || chars[i + 1] == '#') {
        if let Some((mention, end)) = parse_mention(chars.as_slice(), i) {
            return Some((mention, end));
        }
    }
    None
}

/// Emphasis or a spoiler starting at `i`: its span and the position after it.
#[verifier::rlimit(40)]
fn emphasis_at(chars: &Vec<char>, i: usize) -> (r: Option<(MarkdownSpan, usize)>)
    requires
        i < chars@.len(),
    ensures
        match r {
            Some((span, end)) => emphasis_opening(chars@, i as int) matches Some(o) && opening_end(
                chars@,
                i as int,
                o,
            ) == end && opening_span(chars@, i as int, o) == span_of(span),
            None => emphasis_opening(chars@, i as int) is None,
        },
    decreases chars@.len(), 0int,
{
    let len = chars.len();
    let ghost c = chars@;
    proof {
        lemma_opens3(c, i as int, '*');
        lemma_opens2(c, i as int, '*', '*');
        lemma_opens1(c, i as int, '*');
        lemma_opens2(c, i as int, '_', '_');
        lemma_opens2(c, i as int, '|', '|');
        lemma_opens2(c, i as int, '~', '~');
        lemma_closing(c, seq!['*', '*', '*'], i + 3);
        lemma_closing(c, seq!['*', '*'], i + 2);
        lemma_closing(c, seq!['*'], i + 1);
        lemma_closing(c, seq!['_', '_'], i + 2);
        lemma_closing(c, seq!['_'], i + 1);
        lemma_closing(c, seq!['|', '|'], i + 2);
        lemma_closing(c, seq!['~', '~'], i + 2);
        reveal_strlit("***");
        reveal_strlit("**");
        reveal_strlit("*");
        reveal_strlit("__");
        reveal_strlit("_");
        reveal_strlit("||");
        reveal_strlit("~~");
        assert("***"@ =~= seq!['*', '*', '*']);
        assert("**"@ =~= seq!['*', '*']);
        assert("*"@ =~= seq!['*']);
        assert("__"@ =~= seq!['_', '_']);
        assert("_"@ =~= seq!['_']);
        assert("||"@ =~= seq!['|', '|']);
        assert("~~"@ =~= seq!['~', '~']);
    }
    // Bold and italic
    if len - i > 2 && chars[i] == '*' && chars[i + 1] == '*' && chars[i + 2] == '*' {
        if let Some((content, end)) = find_closing(chars.as_slice(), i + 3, "***") {
            if !content.as_str().is_empty() {
                let inner = parse_inline(content.as_str(), MarkdownStyle::default());
                let st = MarkdownStyle {
                    bold: true,
                    italic: true,
                    underline: false,
                    strikethrough: false,
                };
                return Some((MarkdownSpan::Styled { content: inner, style: st }, end));
            }
        }
    }
    // Bold
    if len - i > 1 && chars[i] == '*' && chars[i + 1] == '*' {
        if let Some((content, end)) = find_closing(chars.as_slice(), i + 2, "**") {
            if !content.as_str().is_empty() {
                let inner = parse_inline(content.as_str(), MarkdownStyle::default());
                let st = MarkdownStyle {
                    bold: true,
                    italic: false,
                    underline: false,
                    strikethrough: false,
                };
                return Some((MarkdownSpan::Styled { content: inner, style: st }, end));
            }
        }
    }
    // Italic
    if chars[i] == '*' {
        if let Some((content, end)) = find_closing(chars.as_slice(), i + 1, "*") {
            if !content.as_str().is_empty() {
                let inner = parse_inline(content.as_str(), MarkdownStyle::default());
                let st = MarkdownStyle {
                    bold: false,
                    italic: true,
                    underline: false,
                    strikethrough: false,
                };
                return Some((MarkdownSpan::Styled { content: inner, style: st }, end));
            }
        }
    }
    // Underline
    if len - i > 1 && chars[i] == '_' && chars[i + 1] == '_' {
        if let Some((content, end)) = find_closing(chars.as_slice(), i + 2, "__") {
            if !content.as_str().is_empty() {
                let inner = parse_inline(content.as_str(), MarkdownStyle::default());
                let st = MarkdownStyle {
                    bold: false,
                    italic: false,
                    underline: true,
                    strikethrough: false,
                };
                return Some((MarkdownSpan::Styled { content: inner, style: st }, end));
            }
        }
    }
    // Italic with a single underscore, not inside a word
    if chars[i] == '_' && !(len - i > 1 && chars[i + 1] == '_') {
        let preceded_by_word = i > 0 && is_word_char(chars[i - 1]);
        if !preceded_by_word {
            if let Some((content, end)) = find_closing(chars.as_slice(), i + 1, "_") {
                let followed_by_word = end < len && is_word_char(chars[end]);
                if !content.as_str().is_empty() && !followed_by_word {
                    let inner = parse_inline(content.as_str(), MarkdownStyle::default());
                    let st = MarkdownStyle {
                        bold: false,
                        italic: true,
                        underline: false,
                        strikethrough: false,
                    };
                    return Some((MarkdownSpan::Styled { content: inner, style: st }, end));
                }
            }
        }
    }
    // Spoiler
    if len - i > 1 && chars[i] == '|' && chars[i + 1] == '|' {
        if let Some((content, end)) = find_closing(chars.as_slice(), i + 2, "||") {
            if !content.as_str().is_empty() {
                let inner = parse_inline(content.as_str(), MarkdownStyle::default());
                return Some((MarkdownSpan::Spoiler(inner), end));
            }
        }
    }
    // Strikethrough
    if len - i > 1 && chars[i] == '~' && chars[i + 1] == '~' {
        if let Some((content, end)) = find_closing(chars.as_slice(), i + 2, "~~") {
            if !content.as_str().is_empty() {
                let inner = parse_inline(content.as_str(), MarkdownStyle::default());
                let st = MarkdownStyle {
                    bold: false,
                    italic: false,
                    underline: false,
                    strikethrough: true,
                };
                return Some((MarkdownSpan::Styled { content: inner, style: st }, end));
            }
        }
    }
    None
}

/// The construct, if any, that starts at `i`: its span and the position after it. Three
/// backticks that open no code block give none.
fn opening_at(chars: &Vec<char>, i: usize) -> (r: Option<(MarkdownSpan, usize)>)
    requires
        i < chars@.len(),
    ensures
        match r {
            Some((span, end)) => opening(chars@, i as int) matches Some(o) && opening_end(
                chars@,
                i as int,
                o,
            ) == end && opening_span(chars@, i as int, o) == span_of(span),
            None => opening(chars@, i as int) is None,
        },
    decreases chars@.len(), 1int,
{
    let len = chars.len();
    // Code block
    if len - i > 2 && chars[i] == '`' && chars[i + 1] == '`' && chars[i + 2] == '`' {
        return parse_code_block(chars.as_slice(), i);
    }
    if let Some(found) = token_at(chars, i) {
        return Some(found);
    }
    emphasis_at(chars, i)
}

/// Parses the inline formatting of `input`.
fn parse_inline(input: &str, _style: MarkdownStyle) -> (r: Vec<MarkdownSpan>)
    ensures
        spans_of(r@) == go(input@, 0, seq![]),
    decreases input@.len(), 2int,
{
    let chars = chars_of(input);
    let len = chars.len();
    let ghost c = input@;
    let mut spans: Vec<MarkdownSpan> = Vec::new();
    let mut cur: Vec<char> = Vec::new();
    let mut i: usize = 0;
    assert(spans_of(spans@) + go(c, 0, cur@) =~= go(c, 0, seq![]));
    while i < len
        invariant
            c == chars@,
            c == input@,
            len == c.len(),
            i <= len,
            spans_of(spans@) + go(c, i as int, cur@) == go(c, 0, seq![]),
        decreases len - i,
    {
        let ghost before = spans_of(spans@);
        let ghost pending = cur@;
        proof {
            lemma_opening_end(c, i as int);
        }
        match opening_at(&chars, i) {
            Some((span, end)) => {
                let ghost sp = span_of(span);
                emit(&mut spans, &mut cur, span);
                assert(before + flush(pending) + seq![sp] + go(c, end as int, seq![]) =~= before
                    + (flush(pending) + seq![sp] + go(c, end as int, seq![])));
                i = end;
            },
            None => {
                if len - i > 2 && chars[i] == '`' && chars[i + 1] == '`' && chars[i + 2] == '`' {
                    // Three backticks that open no code block stay as text.
                    cur.push('`');
                    cur.push('`');
                    cur.push('`');
                    assert(cur@ =~= pending + seq!['`', '`', '`']);
                    i = i + 3;
                } else {
                    cur.push(chars[i]);
                    i = i + 1;
                }
            },
        }
    }
    let ghost before = spans_of(spans@);
    let ghost pending = cur@;
    if cur.len() > 0 {
        let text = string_from_chars(cur.as_slice());
        proof {
            lemma_spans_of_push(spans@, MarkdownSpan::Text(text));
        }
        spans.push(MarkdownSpan::Text(text));
    }
    assert(spans_of(spans@) =~= before + flush(pending));
    spans
}

/// Adjacent text spans joined into one.
pub open spec fn merged(s: Seq<Span>) -> Seq<Span>
    decreases s.len(),
{
    if s.len() == 0 {
        seq![]
    } else {
        let m = merged(s.drop_last());
        match s.last() {
            Span::Text(t) => if m.len() > 0 {
                match m.last() {
                    Span::Text(p) => m.drop_last().push(Span::Text(p + t)),
                    _ => m.push(s.last()),
                }
            } else {
                m.push(s.last())
            },
            _ => m.push(s.last()),
        }
    }
}

/// What parsing a text gives: its inline spans with adjacent texts joined.
pub open spec fn parsed(s: Seq<char>) -> Seq<Span> {
    merged(go(s, 0, seq![]))
}

/// The model of a non-empty sequence of spans ends with the model of its last span.
pub proof fn lemma_spans_of_last(v: Seq<MarkdownSpan>)
    requires
        v.len() > 0,
    ensures
        spans_of(v) == spans_of(v.drop_last()).push(span_of(v.last())),
{
    assert(v.subrange(0, v.len() - 1) =~= v.drop_last());
}

/// Merges adjacent text spans into one.
fn merge_text_spans(spans: Vec<MarkdownSpan>) -> (r: Vec<MarkdownSpan>)
    ensures
        spans_of(r@) == merged(spans_of(spans@)),
{
    let ghost all = spans@;
    let mut result: Vec<MarkdownSpan> = Vec::new();
    for span in it: spans.into_iter()
        invariant
            it.seq() == all,
            spans_of(result@) == merged(spans_of(all.take(it.index() as int))),
    {
        let ghost k = it.index() as int;
        let ghost before = spans_of(all.take(k));
        proof {
            assert(all.take(k + 1).drop_last() =~= all.take(k));
            lemma_spans_of_last(all.take(k + 1));
            assert(spans_of(all.take(k + 1)).drop_last() =~= before);
        }
        match span {
            MarkdownSpan::Text(text) => {
                let ghost old_result = result@;
                match result.pop() {
                    Some(MarkdownSpan::Text(prev)) => {
                        proof {
                            lemma_spans_of_last(old_result);
                        }
                        let joined = concat_str(prev.as_str(), text.as_str());
                        proof {
                            lemma_spans_of_push(result@, MarkdownSpan::Text(joined));
                        }
                        result.push(MarkdownSpan::Text(joined));
                    },
                    Some(other) => {
                        proof {
                            lemma_spans_of_last(old_result);
                            lemma_spans_of_push(result@, other);
                        }
                        result.push(other);
                        assert(result@ =~= old_result);
                        proof {
                            lemma_spans_of_push(result@, MarkdownSpan::Text(text));
                        }
                        result.push(MarkdownSpan::Text(text));
                    },
                    None => {
                        proof {
                            lemma_spans_of_push(result@, MarkdownSpan::Text(text));
                        }
                        result.push(MarkdownSpan::Text(text));
                    },
                }
            },
            other => {
                proof {
                    lemma_spans_of_push(result@, other);
                }
                result.push(other);
            },
        }
    }
    assert(all.take(all.len() as int) =~= all);
    result
}

/// Parses Discord-flavored markdown.
pub fn parse(input: &str) -> (r: MarkdownAst)
    ensures
        spans_of(r.spans@) == parsed(input@),
{
    let spans = parse_inline(input, MarkdownStyle::default());
    MarkdownAst::new(merge_text_spans(spans))
}

} // verus!
