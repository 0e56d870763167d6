use vstd::prelude::*;
use crate::markdown::Span;
use crate::text::trim;
use crate::parser::{
    closing, code_block, custom_emoji, delimited, emphasis_opening, flush, go, inline_code,
    lemma_opening_end, mention, merged, opening, opening_span, opens, parsed, token_opening,
    triple_at, underscore_italic, Opening,
};

verus! {

/// A span holds no empty text, nor do the spans nested in it.
pub open spec fn span_has_text(sp: Span) -> bool
    decreases sp,
{
    match sp {
        Span::Text(t) => t.len() > 0,
        Span::Styled { content, style: _ } => forall|k: int|
            0 <= k < content.len() ==> span_has_text(#[trigger] content[k]),
        Span::Spoiler(inner) => forall|k: int|
            0 <= k < inner.len() ==> span_has_text(#[trigger] inner[k]),
        _ => true,
    }
}

/// No span of `s` holds empty text, at any depth.
pub open spec fn no_empty_text(s: Seq<Span>) -> bool {
    forall|k: int| 0 <= k < s.len() ==> span_has_text(#[trigger] s[k])
}

/// The construct found at a position is one whose parts are all there.
proof fn lemma_opening_fits(c: Seq<char>, i: int)
    ensures
        opening(c, i) matches Some(o) ==> match o {
            Opening::CodeBlock => code_block(c, i) is Some,
            Opening::InlineCode => inline_code(c, i) is Some,
            Opening::Emoji => custom_emoji(c, i) is Some,
            Opening::Mention => mention(c, i) is Some,
            Opening::Styled(d, _) => delimited(c, i, d) is Some,
            Opening::UnderscoreItalic => underscore_italic(c, i) is Some,
            Opening::Spoiler => delimited(c, i, seq!['|', '|']) is Some,
        },
{
}

proof fn lemma_concat_has_text(a: Seq<Span>, b: Seq<Span>)
    requires
        no_empty_text(a),
        no_empty_text(b),
    ensures
        no_empty_text(a + b),
{
    assert forall|k: int| 0 <= k < (a + b).len() implies span_has_text(#[trigger] (a + b)[k]) by {
        if k < a.len() {
            assert((a + b)[k] == a[k]);
        } else {
            assert((a + b)[k] == b[k - a.len()]);
        }
    }
}

proof fn lemma_go_has_text(c: Seq<char>, i: int, cur: Seq<char>)
    ensures
        no_empty_text(go(c, i, cur)),
    decreases c.len(), c.len() - i,
{
    if i < 0 || i >= c.len() {
    } else {
        match opening(c, i) {
            Some(o) => {
                lemma_opening_end(c, i);
                lemma_opening_fits(c, i);
                lemma_span_has_text(c, i, o);
                lemma_go_has_text(c, crate::parser::opening_end(c, i, o), seq![]);
                let sp = opening_span(c, i, o);
                assert(no_empty_text(seq![sp]));
                lemma_concat_has_text(flush(cur), seq![sp]);
                lemma_concat_has_text(
                    flush(cur) + seq![sp],
                    go(c, crate::parser::opening_end(c, i, o), seq![]),
                );
            },
            None => {
                if triple_at(c, i) {
                    lemma_go_has_text(c, i + 3, cur + seq!['`', '`', '`']);
                } else {
                    lemma_go_has_text(c, i + 1, cur.push(c[i]));
                }
            },
        }
    }
}

proof fn lemma_span_has_text(c: Seq<char>, i: int, o: Opening)
    requires
        0 <= i < c.len(),
        match o {
            Opening::CodeBlock => code_block(c, i) is Some,
            Opening::InlineCode => inline_code(c, i) is Some,
            Opening::Emoji => custom_emoji(c, i) is Some,
            Opening::Mention => mention(c, i) is Some,
            Opening::Styled(d, _) => delimited(c, i, d) is Some,
            Opening::UnderscoreItalic => underscore_italic(c, i) is Some,
            Opening::Spoiler => delimited(c, i, seq!['|', '|']) is Some,
        },
    ensures
        span_has_text(opening_span(c, i, o)),
    decreases c.len(), 0int,
{
    match o {
        Opening::Styled(d, _) => {
            let k = delimited(c, i, d)->0;
            crate::parser::lemma_closing(c, d, i + d.len());
            lemma_go_has_text(c.subrange(i + d.len(), k), 0, seq![]);
        },
        Opening::UnderscoreItalic => {
            let k = underscore_italic(c, i)->0;
            crate::parser::lemma_closing(c, seq!['_'], i + 1);
            lemma_go_has_text(c.subrange(i + 1, k), 0, seq![]);
        },
        Opening::Spoiler => {
            let k = delimited(c, i, seq!['|', '|'])->0;
            crate::parser::lemma_closing(c, seq!['|', '|'], i + 2);
            lemma_go_has_text(c.subrange(i + 2, k), 0, seq![]);
        },
        _ => {},
    }
}

proof fn lemma_merged_has_text(s: Seq<Span>)
    requires
        no_empty_text(s),
    ensures
        no_empty_text(merged(s)),
    decreases s.len(),
{
    if s.len() > 0 {
        assert(no_empty_text(s.drop_last()));
        lemma_merged_has_text(s.drop_last());
        let m = merged(s.drop_last());
        assert(span_has_text(s.last()));
        match s.last() {
            Span::Text(t) => {
                if m.len() > 0 {
                    assert(span_has_text(m.last()));
                    match m.last() {
                        Span::Text(p) => {
                            let r = m.drop_last().push(Span::Text(p + t));
                            assert forall|k: int| 0 <= k < r.len() implies span_has_text(
                                #[trigger] r[k],
                            ) by {
                                if k < m.len() - 1 {
                                    assert(r[k] == m[k]);
                                }
                            }
                        },
                        _ => {
                            let r = m.push(s.last());
                            assert forall|k: int| 0 <= k < r.len() implies span_has_text(
                                #[trigger] r[k],
                            ) by {
                                if k < m.len() {
                                    assert(r[k] == m[k]);
                                }
                            }
                        },
                    }
                } else {
                    let r = m.push(s.last());
                    assert forall|k: int| 0 <= k < r.len() implies span_has_text(
                        #[trigger] r[k],
                    ) by {
                        if k < m.len() {
                            assert(r[k] == m[k]);
                        }
                    }
                }
            },
            _ => {
                let r = m.push(s.last());
                assert forall|k: int| 0 <= k < r.len() implies span_has_text(#[trigger] r[k]) by {
                    if k < m.len() {
                        assert(r[k] == m[k]);
                    }
                }
            },
        }
    }
}

/// Parsing never yields an empty text span, at any depth.
pub proof fn law_parse_has_no_empty_text(s: Seq<char>)
    ensures
        no_empty_text(parsed(s)),
{
    lemma_go_has_text(s, 0, seq![]);
    lemma_merged_has_text(go(s, 0, seq![]));
}

/// Characters that can start markdown: backtick, `<`, `*`, `_`, `|`, `~`.
pub open spec fn is_markup(ch: char) -> bool {
    ch == '`' || ch == '<' || ch == '*' || ch == '_' || ch == '|' || ch == '~'
}

proof fn lemma_go_plain(c: Seq<char>, i: int, cur: Seq<char>)
    requires
        0 <= i <= c.len(),
        forall|k: int| 0 <= k < c.len() ==> !is_markup(#[trigger] c[k]),
    ensures
        go(c, i, cur) == flush(cur + c.subrange(i, c.len() as int)),
    decreases c.len() - i,
{
    if i < c.len() {
        assert(!is_markup(c[i]));
        assert(!opens(c, i, seq!['*', '*', '*'])) by {
            if opens(c, i, seq!['*', '*', '*']) {
                assert(c.subrange(i, i + 3)[0] == seq!['*', '*', '*'][0]);
            }
        }
        assert(!opens(c, i, seq!['*', '*'])) by {
            if opens(c, i, seq!['*', '*']) {
                assert(c.subrange(i, i + 2)[0] == seq!['*', '*'][0]);
            }
        }
        assert(!opens(c, i, seq!['*'])) by {
            if opens(c, i, seq!['*']) {
                assert(c.subrange(i, i + 1)[0] == seq!['*'][0]);
            }
        }
        assert(!opens(c, i, seq!['_', '_'])) by {
            if opens(c, i, seq!['_', '_']) {
                assert(c.subrange(i, i + 2)[0] == seq!['_', '_'][0]);
            }
        }
        assert(!opens(c, i, seq!['|', '|'])) by {
            if opens(c, i, seq!['|', '|']) {
                assert(c.subrange(i, i + 2)[0] == seq!['|', '|'][0]);
            }
        }
        assert(!opens(c, i, seq!['~', '~'])) by {
            if opens(c, i, seq!['~', '~']) {
                assert(c.subrange(i, i + 2)[0] == seq!['~', '~'][0]);
            }
        }
        assert(token_opening(c, i) is None);
        assert(emphasis_opening(c, i) is None);
        assert(opening(c, i) is None);
        lemma_go_plain(c, i + 1, cur.push(c[i]));
        assert(cur.push(c[i]) + c.subrange(i + 1, c.len() as int) =~= cur + c.subrange(
            i,
            c.len() as int,
        ));
    } else {
        assert(cur + c.subrange(i, c.len() as int) =~= cur);
    }
}

/// Text with no markup character parses to itself as one text span, or to nothing when empty.
pub proof fn law_plain_text_is_one_span(s: Seq<char>)
    requires
        forall|k: int| 0 <= k < s.len() ==> !is_markup(#[trigger] s[k]),
    ensures
        parsed(s) == (if s.len() == 0 {
            Seq::<Span>::empty()
        } else {
            seq![Span::Text(s)]
        }),
{
    lemma_go_plain(s, 0, seq![]);
    assert(Seq::<char>::empty() + s.subrange(0, s.len() as int) =~= s);
    assert(go(s, 0, seq![]) == flush(s));
    assert(merged(Seq::<Span>::empty()) == Seq::<Span>::empty());
    if s.len() > 0 {
        let one = seq![Span::Text(s)];
        assert(one.drop_last() =~= Seq::<Span>::empty());
        assert(one.last() == Span::Text(s));
        assert(merged(one) =~= Seq::<Span>::empty().push(Span::Text(s)));
    }
}

/// No two neighbouring spans are both text.
pub open spec fn no_adjacent_text(s: Seq<Span>) -> bool {
    forall|i: int| 0 <= i < s.len() - 1 ==> !(#[trigger] s[i] is Text && s[i + 1] is Text)
}

proof fn lemma_merged_no_adjacent(s: Seq<Span>)
    ensures
        no_adjacent_text(merged(s)),
    decreases s.len(),
{
    if s.len() > 0 {
        lemma_merged_no_adjacent(s.drop_last());
        let m = merged(s.drop_last());
        let r = merged(s);
        assert forall|i: int| 0 <= i < r.len() - 1 implies !(#[trigger] r[i] is Text && r[i + 1] is Text) by {
            if s.last() is Text && m.len() > 0 && m.last() is Text {
                assert(r.len() == m.len());
                assert(r[i] == m[i]);
                if i + 1 < r.len() - 1 {
                    assert(r[i + 1] == m[i + 1]);
                } else {
                    assert(m[i + 1] == m.last());
                }
            } else {
                assert(r.len() == m.len() + 1);
                assert(r[i] == m[i]);
                if i + 1 < m.len() {
                    assert(r[i + 1] == m[i + 1]);
                } else {
                    assert(i == m.len() - 1);
                    assert(m[i] == m.last());
                }
            }
        }
    }
}

/// Parsing joins neighbouring texts: no two neighbouring top-level spans are both text.
pub proof fn law_parse_joins_adjacent_text(s: Seq<char>)
    ensures
        no_adjacent_text(parsed(s)),
{
    lemma_merged_no_adjacent(go(s, 0, seq![]));
}

proof fn lemma_triple_is_fence(c: Seq<char>, j: int)
    ensures
        0 <= crate::parser::triple_from(c, j) < c.len() ==> {
            let t = crate::parser::triple_from(c, j);
            c[t] == '`' && c[t + 1] == '`' && c[t + 2] == '`' && t + 2 < c.len()
        },
    decreases c.len() - j,
{
    if j + 2 < c.len() && !(c[j] == '`' && c[j + 1] == '`' && c[j + 2] == '`') {
        lemma_triple_is_fence(c, j + 1);
    }
}

/// A code block keeps the text between its fences: with no newline in it, the block has no
/// language and all of the text is its content; otherwise the text is its first line, a
/// newline and the content, and the language is that first line, trimmed, when not empty.
/// The block ends right after the closing three backticks.
pub proof fn law_code_block_keeps_text(c: Seq<char>, s: int)
    ensures
        code_block(c, s) matches Some((sp, e)) ==> {
            &&& 0 <= s && s + 3 <= e - 3 && e <= c.len()
            &&& c[e - 3] == '`' && c[e - 2] == '`' && c[e - 1] == '`'
            &&& sp matches Span::CodeBlock { language, content } && {
                let raw = c.subrange(s + 3, e - 3);
                &&& (forall|k: int| 0 <= k < raw.len() ==> raw[k] != '\n') ==> language is None
                    && content == raw
                &&& (exists|k: int| 0 <= k < raw.len() && raw[k] == '\n') ==> exists|k: int|
                    0 <= k < raw.len() && raw[k] == '\n' && (forall|j: int| 0 <= j < k ==> raw[j] != '\n')
                        && raw == raw.subrange(0, k) + seq!['\n'] + content && language == (if trim(
                        raw.subrange(0, k),
                    ).len() == 0 {
                        None::<Seq<char>>
                    } else {
                        Some(trim(raw.subrange(0, k)))
                    })
            }
        },
{
    if s >= 0 {
        crate::parser::lemma_triple_from(c, s + 3);
    }
    if let Some((sp, e)) = code_block(c, s) {
        let t = crate::parser::triple_from(c, s + 3);
        assert(e == t + 3);
        let raw = c.subrange(s + 3, t);
        crate::parser::lemma_next_char(raw, 0, '\n');
        let nl = crate::parser::next_char(raw, 0, '\n');
        lemma_triple_is_fence(c, s + 3);
        if nl < raw.len() {
            assert(raw =~= raw.subrange(0, nl) + seq!['\n'] + raw.subrange(nl + 1, raw.len() as int));
        }
    }
}

} // verus!
