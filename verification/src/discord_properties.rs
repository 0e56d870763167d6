use vstd::prelude::*;
use crate::parser::{digits_end, lemma_digits_end, next_char};
use crate::text::{
    all_digits, chars_of, concat_str, digits_value, find_chars, find_from, is_digit,
    lemma_find_from, matches_at, occurs_at, parse_u64, parse_u64_spec, string_from_chars,
};

verus! {

/// How long fetched properties stay valid: six hours, in seconds.
pub const CACHE_TTL_SECS: u64 = 21600;

/// Capabilities used when the web client's bundle does not reveal them.
pub const DEFAULT_CAPABILITIES: u64 = 30717;

/// Discord client properties fetched from the live web client.
#[derive(Debug, Clone)]
pub struct DiscordProperties {
    pub client_build_number: u64,
    pub capabilities: u64,
    pub browser_version: String,
    pub browser_user_agent: String,
    /// When the properties were fetched, in seconds since the Unix epoch.
    pub fetched_at: u64,
}

impl DiscordProperties {
    /// Whether properties fetched at `fetched_at` are still fresh at `now`: fetched no later than
    /// `now`, and less than the time to live ago.
    pub open spec fn fresh_at(fetched_at: u64, now: u64) -> bool {
        fetched_at <= now && now - fetched_at < CACHE_TTL_SECS
    }

    /// Whether these properties are still fresh at the time `now` (seconds since the epoch).
    pub fn is_fresh_at(&self, now: u64) -> (r: bool)
        ensures
            r == Self::fresh_at(self.fetched_at, now),
    {
        self.fetched_at <= now && now - self.fetched_at < CACHE_TTL_SECS
    }

    /// Whether these properties are still fresh by the system clock: the answer is their
    /// freshness at the time read from the clock.
    pub fn is_fresh(&self) -> (r: bool)
        ensures
            exists|now: u64| r == Self::fresh_at(self.fetched_at, now),
    {
        let now = crate::science::timestamp_ms() / 1000;
        self.is_fresh_at(now)
    }
}

// ---------------------------------------------------------------------------
// A small pattern matcher: literal text around one `(\d+)` capture group
// ---------------------------------------------------------------------------

/// `s` with each `\"` replaced by `"`.
pub open spec fn unescape_quotes(s: Seq<char>) -> Seq<char>
    decreases s.len(),
{
    if s.len() == 0 {
        seq![]
    } else if s.len() >= 2 && s[0] == '\\' && s[1] == '"' {
        seq!['"'] + unescape_quotes(s.subrange(2, s.len() as int))
    } else {
        seq![s[0]] + unescape_quotes(s.subrange(1, s.len() as int))
    }
}

/// The capture group a pattern holds: `(\d+)`.
pub open spec fn capture_group() -> Seq<char> {
    seq!['(', '\\', 'd', '+', ')']
}

/// The literal text of a pattern before and after its first capture group, unescaped.
pub open spec fn pattern_parts(p: Seq<char>) -> Option<(Seq<char>, Seq<char>)> {
    match find_from(p, capture_group(), 0) {
        Some(c) => Some(
            (
                unescape_quotes(p.subrange(0, c)),
                unescape_quotes(p.subrange(c + 5, p.len() as int)),
            ),
        ),
        None => None,
    }
}

/// Where the search for the prefix goes on after a failed attempt whose digits span `a..e`.
pub open spec fn next_start(a: int, e: int) -> int {
    if e > a + 1 {
        e
    } else {
        a + 1
    }
}

/// The digits found when searching `h` from `s` for `pre`, then at least one digit, then `suf`
/// (empty `suf`: anything).
pub open spec fn scan_digits(h: Seq<char>, pre: Seq<char>, suf: Seq<char>, s: int) -> Option<
    Seq<char>,
>
    decreases h.len() - s,
{
    match find_from(h, pre, s) {
        None => None,
        Some(p) => {
            let a = p + pre.len();
            if a >= h.len() {
                None
            } else {
                let e = digits_end(h, a);
                if e > a && (suf.len() == 0 || occurs_at(h, suf, e)) {
                    Some(h.subrange(a, e))
                } else {
                    proof {
                        lemma_find_from(h, pre, s);
                        lemma_digits_end(h, a);
                    }
                    scan_digits(h, pre, suf, next_start(a, e))
                }
            }
        }
    }
}

/// Whether that search, done on the UTF-8 text, would resume inside a multi-byte character:
/// the prefix is followed by a character that is neither a digit nor ASCII.
pub open spec fn scan_breaks(h: Seq<char>, pre: Seq<char>, suf: Seq<char>, s: int) -> bool
    decreases h.len() - s,
{
    match find_from(h, pre, s) {
        None => false,
        Some(p) => {
            let a = p + pre.len();
            if a >= h.len() {
                false
            } else {
                let e = digits_end(h, a);
                if e > a && (suf.len() == 0 || occurs_at(h, suf, e)) {
                    false
                } else if e <= a && (h[a] as u32) >= 128 {
                    true
                } else {
                    proof {
                        lemma_find_from(h, pre, s);
                        lemma_digits_end(h, a);
                    }
                    scan_breaks(h, pre, suf, next_start(a, e))
                }
            }
        }
    }
}

/// What `regex_find` answers for a text and a pattern.
pub open spec fn regex_spec(h: Seq<char>, p: Seq<char>) -> Option<Seq<char>> {
    match pattern_parts(p) {
        Some((pre, suf)) => scan_digits(h, pre, suf, 0),
        None => None,
    }
}

/// Whether `regex_find` cannot complete on a text and a pattern (see `scan_breaks`).
pub open spec fn regex_breaks(h: Seq<char>, p: Seq<char>) -> bool {
    match pattern_parts(p) {
        Some((pre, suf)) => scan_breaks(h, pre, suf, 0),
        None => false,
    }
}

/// `s` with each `\"` replaced by `"`.
fn unescape(s: &[char]) -> (r: Vec<char>)
    ensures
        r@ == unescape_quotes(s@),
{
    let n = s.len();
    let mut out: Vec<char> = Vec::new();
    let mut i: usize = 0;
    assert(s@.subrange(0, n as int) =~= s@);
    while i < n
        invariant
            n == s@.len(),
            i <= n,
            out@ + unescape_quotes(s@.subrange(i as int, n as int)) == unescape_quotes(s@),
        decreases n - i,
    {
        let ghost rest = s@.subrange(i as int, n as int);
        if i + 1 < n && s[i] == '\\' && s[i + 1] == '"' {
            assert(rest.subrange(2, rest.len() as int) =~= s@.subrange(i + 2, n as int));
            out.push('"');
            assert(out@ + unescape_quotes(s@.subrange(i + 2, n as int)) =~= out@.drop_last() + (
            seq!['"'] + unescape_quotes(rest.subrange(2, rest.len() as int))));
            i = i + 2;
        } else {
            assert(rest.subrange(1, rest.len() as int) =~= s@.subrange(i + 1, n as int));
            out.push(s[i]);
            assert(out@ + unescape_quotes(s@.subrange(i + 1, n as int)) =~= out@.drop_last() + (
            seq![rest[0]] + unescape_quotes(rest.subrange(1, rest.len() as int))));
            i = i + 1;
        }
    }
    assert(s@.subrange(n as int, n as int) =~= Seq::<char>::empty());
    assert(out@ + Seq::<char>::empty() =~= out@);
    out
}

/// The search of `regex_find`, done to the end: `Err` where the search on the UTF-8 text
/// would resume inside a character.
fn regex_scan(haystack: &str, pattern: &str) -> (r: Result<Option<String>, ()>)
    ensures
        r is Err <==> regex_breaks(haystack@, pattern@),
        r matches Ok(x) ==> match x {
            Some(s) => regex_spec(haystack@, pattern@) == Some(s@),
            None => regex_spec(haystack@, pattern@) is None,
        },
{
    let h = chars_of(haystack);
    let p = chars_of(pattern);
    let group = chars_of("(\\d+)");
    proof {
        reveal_strlit("(\\d+)");
        assert(group@ =~= capture_group());
        assert(capture_group().len() == 5);
    }
    let plen = p.len();
    let cap_start = match find_chars(p.as_slice(), group.as_slice(), 0) {
        Some(c) => c,
        None => {
            return Ok(None);
        },
    };
    proof {
        lemma_find_from(p@, group@, 0);
        assert(occurs_at(p@, group@, cap_start as int));
        assert(cap_start + 5 <= plen);
    }
    let prefix = unescape(vstd::slice::slice_subrange(p.as_slice(), 0, cap_start));
    let suffix = unescape(vstd::slice::slice_subrange(p.as_slice(), cap_start + 5, plen));
    let ghost hs = h@;
    let ghost pre = prefix@;
    let ghost suf = suffix@;
    let n = h.len();
    let mut search_start: usize = 0;
    while search_start <= n
        invariant
            hs == h@,
            hs == haystack@,
            n == hs.len(),
            pattern_parts(pattern@) == Some((pre, suf)),
            pre == prefix@,
            suf == suffix@,
            scan_digits(hs, pre, suf, search_start as int) == scan_digits(hs, pre, suf, 0),
            scan_breaks(hs, pre, suf, search_start as int) == scan_breaks(hs, pre, suf, 0),
        decreases n + 1 - search_start,
    {
        let prefix_pos = match find_chars(h.as_slice(), prefix.as_slice(), search_start) {
            Some(q) => q,
            None => {
                return Ok(None);
            },
        };
        proof {
            lemma_find_from(hs, pre, search_start as int);
        }
        let abs_pos = prefix_pos + prefix.len();
        if abs_pos >= n {
            return Ok(None);
        }
        let digit_start = abs_pos;
        let mut digit_end = digit_start;
        while digit_end < n && '0' <= h[digit_end] && h[digit_end] <= '9'
            invariant
                hs == h@,
                n == hs.len(),
                digit_start <= digit_end <= n,
                digits_end(hs, digit_end as int) == digits_end(hs, digit_start as int),
            decreases n - digit_end,
        {
            digit_end = digit_end + 1;
        }
        if digit_end > digit_start {
            if suffix.len() == 0 || matches_at(h.as_slice(), suffix.as_slice(), digit_end) {
                let digits = string_from_chars(
                    vstd::slice::slice_subrange(h.as_slice(), digit_start, digit_end),
                );
                return Ok(Some(digits));
            }
        }
        proof {
            lemma_digits_end(hs, abs_pos as int);
        }
        if digit_end <= abs_pos && (h[abs_pos] as u32) >= 128 {
            return Err(());
        }
        search_start = if digit_end > abs_pos + 1 {
            digit_end
        } else {
            abs_pos + 1
        };
    }
    Ok(None)
}

/// The first capture group of `pattern` in `haystack`: the pattern is literal text around one
/// `(\d+)` group (`\"` in the literal text stands for `"`). `None` when the search would
/// resume inside a multi-byte character.
pub fn regex_find(haystack: &str, pattern: &str) -> (r: Option<String>)
    ensures
        regex_breaks(haystack@, pattern@) ==> r is None,
        !regex_breaks(haystack@, pattern@) ==> match r {
            Some(s) => regex_spec(haystack@, pattern@) == Some(s@),
            None => regex_spec(haystack@, pattern@) is None,
        },
{
    match regex_scan(haystack, pattern) {
        Ok(x) => x,
        Err(()) => None,
    }
}

/// Whether `regex_find` cannot search `haystack` for `pattern`: its search on the UTF-8 text
/// would resume inside a multi-byte character.
pub fn regex_find_breaks(haystack: &str, pattern: &str) -> (r: bool)
    ensures
        r == regex_breaks(haystack@, pattern@),
{
    regex_scan(haystack, pattern).is_err()
}


// ---------------------------------------------------------------------------
// Reading the login page and the web client's bundle
// ---------------------------------------------------------------------------

/// A match of the literal text `pre`, then the digits `d`, then `suf` (empty: anything) in `h`:
/// the digits start right after `pre`, are a whole run of digits, and are not empty.
pub open spec fn captures_digits(h: Seq<char>, pre: Seq<char>, suf: Seq<char>, d: Seq<char>) -> bool {
    exists|a: int, e: int|
        #![trigger h.subrange(a, e)]
        a < e && occurs_at(h, pre, a - pre.len()) && d == h.subrange(a, e) && (forall|k: int|
            a <= k < e ==> is_digit(#[trigger] h[k])) && (e == h.len() || !is_digit(h[e])) && (
        suf.len() == 0 || occurs_at(h, suf, e))
}

proof fn lemma_scan_digits(h: Seq<char>, pre: Seq<char>, suf: Seq<char>, s: int)
    ensures
        scan_digits(h, pre, suf, s) matches Some(d) ==> captures_digits(h, pre, suf, d),
        find_from(h, pre, s) is None ==> scan_digits(h, pre, suf, s) is None,
    decreases h.len() - s,
{
    lemma_find_from(h, pre, s);
    match find_from(h, pre, s) {
        None => {},
        Some(p) => {
            let a = p + pre.len();
            if a < h.len() {
                lemma_digits_end(h, a);
                let e = digits_end(h, a);
                if e > a && (suf.len() == 0 || occurs_at(h, suf, e)) {
                    assert(occurs_at(h, pre, a - pre.len()));
                    assert(captures_digits(h, pre, suf, h.subrange(a, e)));
                } else {
                    lemma_scan_digits(h, pre, suf, next_start(a, e));
                }
            }
        },
    }
}

/// What `regex_find` captures is a whole, non-empty run of digits that directly follows the
/// pattern's literal text before the group and is followed by its literal text after it; a
/// pattern without a `(\d+)` group, or a text without the literal text before it, captures
/// nothing.
pub proof fn law_regex_captures_digits_after_prefix(h: Seq<char>, p: Seq<char>)
    ensures
        pattern_parts(p) is None ==> regex_spec(h, p) is None,
        pattern_parts(p) matches Some((pre, suf)) ==> {
            &&& regex_spec(h, p) matches Some(d) ==> captures_digits(h, pre, suf, d)
            &&& find_from(h, pre, 0) is None ==> regex_spec(h, p) is None
        },
{
    if let Some((pre, suf)) = pattern_parts(p) {
        lemma_scan_digits(h, pre, suf, 0);
    }
}

/// The number a pattern captures in a text, when it captures one that fits in 64 bits.
pub open spec fn captured_number(h: Seq<char>, p: Seq<char>) -> Option<u64> {
    match regex_spec(h, p) {
        Some(d) => parse_u64_spec(d),
        None => None,
    }
}

/// The patterns that can spell the build number, tried in order.
pub open spec fn build_number_pattern(k: int) -> Seq<char> {
    if k == 0 {
        "\"BUILD_NUMBER\":\"(\\d+)\""@
    } else if k == 1 {
        "BUILD_NUMBER:\"(\\d+)\""@
    } else {
        "\"buildNumber\":\"(\\d+)\""@
    }
}

/// The build number in a login page: the first of the patterns that captures a number.
pub open spec fn build_number_of(html: Seq<char>) -> Option<u64> {
    if captured_number(html, build_number_pattern(0)) is Some {
        captured_number(html, build_number_pattern(0))
    } else if captured_number(html, build_number_pattern(1)) is Some {
        captured_number(html, build_number_pattern(1))
    } else {
        captured_number(html, build_number_pattern(2))
    }
}

/// The number that `regex_find` captures, when it fits in 64 bits.
fn find_number(haystack: &str, pattern: &str) -> (r: Option<u64>)
    requires
        !regex_breaks(haystack@, pattern@),
    ensures
        r == captured_number(haystack@, pattern@),
{
    match regex_find(haystack, pattern) {
        Some(caps) => {
            let d = chars_of(caps.as_str());
            parse_u64(d.as_slice())
        },
        None => None,
    }
}

/// Whether reading the build number cannot complete: a search that it makes would resume
/// inside a multi-byte character.
pub open spec fn build_number_breaks(html: Seq<char>) -> bool {
    !(!regex_breaks(html, build_number_pattern(0)) && (captured_number(
        html,
        build_number_pattern(0),
    ) is None ==> !regex_breaks(html, build_number_pattern(1))) && (captured_number(
        html,
        build_number_pattern(0),
    ) is None && captured_number(html, build_number_pattern(1)) is None ==> !regex_breaks(
        html,
        build_number_pattern(2),
    )))
}

/// Extracts `BUILD_NUMBER` from the `window.GLOBAL_ENV` of the login page; `None` when there
/// is none, or when the page cannot be read (a search would resume inside a character).
pub fn parse_build_number(html: &str) -> (r: Option<u64>)
    ensures
        r == if build_number_breaks(html@) {
            None
        } else {
            build_number_of(html@)
        },
{
    if parse_build_number_breaks(html) {
        return None;
    }
    if let Some(num) = find_number(html, "\"BUILD_NUMBER\":\"(\\d+)\"") {
        return Some(num);
    }
    if let Some(num) = find_number(html, "BUILD_NUMBER:\"(\\d+)\"") {
        return Some(num);
    }
    find_number(html, "\"buildNumber\":\"(\\d+)\"")
}

/// Whether `parse_build_number` cannot read the page: a search that it makes would resume
/// inside a multi-byte character.
pub fn parse_build_number_breaks(html: &str) -> (r: bool)
    ensures
        r == build_number_breaks(html@),
{
    if regex_find_breaks(html, "\"BUILD_NUMBER\":\"(\\d+)\"") {
        return true;
    }
    if find_number(html, "\"BUILD_NUMBER\":\"(\\d+)\"").is_some() {
        return false;
    }
    if regex_find_breaks(html, "BUILD_NUMBER:\"(\\d+)\"") {
        return true;
    }
    if find_number(html, "BUILD_NUMBER:\"(\\d+)\"").is_some() {
        return false;
    }
    regex_find_breaks(html, "\"buildNumber\":\"(\\d+)\"")
}

/// What marks the main bundle's script tag.
pub open spec fn bundle_marker() -> Seq<char> {
    "src=\"/assets/web."@
}

/// The main bundle's URL in a login page: from just after `src="` of the first marker up to the
/// next `"`.
pub open spec fn bundle_url_of(html: Seq<char>) -> Option<Seq<char>> {
    match find_from(html, bundle_marker(), 0) {
        Some(s) => {
            let e = next_char(html, s + 5, '"');
            if e < html.len() {
                Some(html.subrange(s + 5, e))
            } else {
                None
            }
        },
        None => None,
    }
}

/// Extracts the main JS bundle URL (`/assets/web.{hash}.js`) from the login page.
pub fn parse_bundle_url(html: &str) -> (r: Option<String>)
    ensures
        match r {
            Some(u) => bundle_url_of(html@) == Some(u@),
            None => bundle_url_of(html@) is None,
        },
{
    let h = chars_of(html);
    let marker = chars_of("src=\"/assets/web.");
    proof {
        reveal_strlit("src=\"/assets/web.");
    }
    let start = match find_chars(h.as_slice(), marker.as_slice(), 0) {
        Some(s) => s,
        None => {
            return None;
        },
    };
    proof {
        lemma_find_from(h@, marker@, 0);
    }
    let src_start = start + 5;
    let n = h.len();
    let mut end = src_start;
    while end < n && h[end] != '"'
        invariant
            src_start <= end <= n,
            n == h@.len(),
            next_char(h@, end as int, '"') == next_char(h@, src_start as int, '"'),
        decreases n - end,
    {
        end = end + 1;
    }
    if end >= n {
        return None;
    }
    Some(string_from_chars(vstd::slice::slice_subrange(h.as_slice(), src_start, end)))
}

/// The number of bytes that UTF-8 takes for a character.
pub open spec fn utf8_len(c: char) -> nat {
    if (c as u32) < 0x80 {
        1
    } else if (c as u32) < 0x800 {
        2
    } else if (c as u32) < 0x10000 {
        3
    } else {
        4
    }
}

/// Walking back from `j` over the characters before it until at least 200 bytes lie between
/// there and the start of the walk (`acc` counts them so far): the index reached and the bytes
/// passed.
pub open spec fn walk_back(js: Seq<char>, j: int, acc: nat) -> (int, nat)
    decreases j,
{
    if acc >= 200 || j <= 0 {
        (j, acc)
    } else {
        walk_back(js, j - 1, acc + utf8_len(js[j - 1]))
    }
}

/// The marker near which the bundle assigns the capabilities.
pub open spec fn obfuscation_marker() -> Seq<char> {
    "useChannelObfuscation"@
}

/// The pattern for the capabilities value just before the marker.
pub open spec fn near_pattern() -> Seq<char> {
    ",i=(\\d+)"@
}

/// The patterns for the capabilities value anywhere in the bundle, tried in order.
pub open spec fn far_pattern(k: int) -> Seq<char> {
    if k == 0 {
        ",i=(\\d+);function"@
    } else {
        "capabilities:(\\d{5,})"@
    }
}

/// The text searched near the marker at `k`: the 200 bytes before it (less at the start).
pub open spec fn near_region(js: Seq<char>, k: int) -> Seq<char> {
    js.subrange(walk_back(js, k, 0).0, k)
}

/// A capabilities value found far from the marker: a captured number above 10000.
pub open spec fn far_capabilities(js: Seq<char>, p: Seq<char>) -> Option<u64> {
    match captured_number(js, p) {
        Some(v) => if v > 10000 {
            Some(v)
        } else {
            None
        },
        None => None,
    }
}

/// The capabilities in the bundle: the number after `,i=` in the 200 bytes before the
/// marker, or else the first large number that one of the wider patterns captures.
pub open spec fn capabilities_of(js: Seq<char>) -> Option<u64> {
    let near = match find_from(js, obfuscation_marker(), 0) {
        Some(k) => captured_number(near_region(js, k), near_pattern()),
        None => None,
    };
    if near is Some {
        near
    } else if far_capabilities(js, far_pattern(0)) is Some {
        far_capabilities(js, far_pattern(0))
    } else {
        far_capabilities(js, far_pattern(1))
    }
}

/// Whether reading the bundle cannot complete: the 200-byte window before the marker would
/// start inside a character, or a search would resume inside one.
pub open spec fn capabilities_break(js: Seq<char>) -> bool {
    let near = match find_from(js, obfuscation_marker(), 0) {
        Some(k) => captured_number(near_region(js, k), near_pattern()),
        None => None,
    };
    ||| (find_from(js, obfuscation_marker(), 0) matches Some(k) && (walk_back(js, k, 0).1 > 200
        || regex_breaks(near_region(js, k), near_pattern())))
    ||| (near is None && regex_breaks(js, far_pattern(0)))
    ||| (near is None && far_capabilities(js, far_pattern(0)) is None && regex_breaks(
        js,
        far_pattern(1),
    ))
}

/// Reading the bundle to the end: `Err` where the reading cannot complete.
fn capabilities_scan(js: &str) -> (r: Result<Option<u64>, ()>)
    ensures
        r is Err <==> capabilities_break(js@),
        r matches Ok(x) ==> x == capabilities_of(js@),
{
    let c = chars_of(js);
    let marker = chars_of("useChannelObfuscation");
    if let Some(idx) = find_chars(c.as_slice(), marker.as_slice(), 0) {
        proof {
            lemma_find_from(c@, marker@, 0);
        }
        // Walk back over up to 200 bytes.
        let mut j = idx;
        let mut acc: u64 = 0;
        while acc < 200 && j > 0
            invariant
                j <= idx <= c@.len(),
                acc <= 203,
                walk_back(c@, j as int, acc as nat) == walk_back(c@, idx as int, 0),
            decreases j,
        {
            let ch = c[j - 1];
            let w: u64 = if (ch as u32) < 0x80 {
                1
            } else if (ch as u32) < 0x800 {
                2
            } else if (ch as u32) < 0x10000 {
                3
            } else {
                4
            };
            acc = acc + w;
            j = j - 1;
        }
        if acc > 200 {
            return Err(());
        }
        let region = string_from_chars(vstd::slice::slice_subrange(c.as_slice(), j, idx));
        assert(region@ =~= near_region(js@, idx as int));
        if regex_find_breaks(region.as_str(), ",i=(\\d+)") {
            return Err(());
        }
        if let Some(num) = find_number(region.as_str(), ",i=(\\d+)") {
            return Ok(Some(num));
        }
    }
    if regex_find_breaks(js, ",i=(\\d+);function") {
        return Err(());
    }
    if let Some(num) = find_number(js, ",i=(\\d+);function") {
        if num > 10000 {
            return Ok(Some(num));
        }
    }
    if regex_find_breaks(js, "capabilities:(\\d{5,})") {
        return Err(());
    }
    if let Some(num) = find_number(js, "capabilities:(\\d{5,})") {
        if num > 10000 {
            return Ok(Some(num));
        }
    }
    Ok(None)
}

/// Extracts the capabilities base value from the web client's JS bundle; `None` when there is
/// none, or when the bundle cannot be read (the window before the marker would start inside a
/// character, or a search would resume inside one).
pub fn parse_capabilities(js: &str) -> (r: Option<u64>)
    ensures
        r == if capabilities_break(js@) {
            None
        } else {
            capabilities_of(js@)
        },
{
    match capabilities_scan(js) {
        Ok(x) => x,
        Err(()) => None,
    }
}

/// Whether `parse_capabilities` cannot read the bundle: the window before the marker would
/// start inside a character, or a search would resume inside one.
pub fn parse_capabilities_breaks(js: &str) -> (r: bool)
    ensures
        r == capabilities_break(js@),
{
    capabilities_scan(js).is_err()
}

/// The user agent of Chrome at `version` on macOS.
pub open spec fn chrome_user_agent(version: Seq<char>) -> Seq<char> {
    "Mozilla/5.0 (Macintosh; Intel Mac OS X 10_15_7) AppleWebKit/537.36 (KHTML, like Gecko) Chrome/"@
        + version + " Safari/537.36"@
}

/// Builds the user agent of Chrome at `version` on macOS.
pub fn chrome_user_agent_for(version: &str) -> (r: String)
    ensures
        r@ == chrome_user_agent(version@),
{
    let head = concat_str(
        "Mozilla/5.0 (Macintosh; Intel Mac OS X 10_15_7) AppleWebKit/537.36 (KHTML, like Gecko) Chrome/",
        version,
    );
    concat_str(head.as_str(), " Safari/537.36")
}

/// The properties that the fetched pages give: the build number and bundle URL read from the
/// login page, the capabilities read from the bundle (or their default, also when the bundle
/// cannot be read), and the browser
/// version (or `131.0.0.0` when it could not be fetched).
pub fn assemble_properties(
    client_build_number: u64,
    bundle_js: &str,
    browser_version: Option<String>,
    fetched_at: u64,
) -> (r: DiscordProperties)
    ensures
        r.client_build_number == client_build_number,
        r.capabilities == match (if capabilities_break(bundle_js@) {
            None
        } else {
            capabilities_of(bundle_js@)
        }) {
            Some(v) => v,
            None => DEFAULT_CAPABILITIES,
        },
        browser_version matches Some(v) ==> r.browser_version@ == v@,
        browser_version is None ==> r.browser_version@ == "131.0.0.0"@,
        r.browser_user_agent@ == chrome_user_agent(r.browser_version@),
        r.fetched_at == fetched_at,
{
    let capabilities = match parse_capabilities(bundle_js) {
        Some(v) => v,
        None => DEFAULT_CAPABILITIES,
    };
    let browser_version = match browser_version {
        Some(v) => v,
        None => String::from_str("131.0.0.0"),
    };
    let browser_user_agent = chrome_user_agent_for(browser_version.as_str());
    DiscordProperties {
        client_build_number,
        capabilities,
        browser_version,
        browser_user_agent,
        fetched_at,
    }
}


} // verus!
