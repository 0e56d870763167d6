use vstd::prelude::*;
use base64::Engine;
use vstd::string::StringSliceAdditionalSpecFns;
use crate::config::DiscordConfig;
use crate::parser::next_char;
use crate::text::{chars_of, concat_str, copy_str, find_from, string_from_chars};

verus! {

/// IDENTIFY properties that mimic the Discord web client; sent in the gateway IDENTIFY payload
/// and, encoded, as the `X-Super-Properties` header.
#[derive(Debug, Clone)]
pub struct IdentifyProperties {
    pub os: String,
    pub browser: String,
    pub device: String,
    pub system_locale: String,
    pub browser_user_agent: String,
    pub browser_version: String,
    pub os_version: String,
    pub referrer: String,
    pub referring_domain: String,
    pub referrer_current: String,
    pub referring_domain_current: String,
    pub release_channel: String,
    pub client_build_number: u64,
    pub client_event_source: Option<String>,
}

/// A character in ASCII lower case.
pub open spec fn ascii_lower(c: char) -> char {
    if 'A' <= c && c <= 'Z' {
        ((c as u8) + 32) as char
    } else {
        c
    }
}

/// Whether `h` holds the lower-case ASCII word `w` at `i`, ignoring ASCII case.
pub open spec fn holds_word_at(h: Seq<char>, w: Seq<char>, i: int) -> bool {
    0 <= i && i + w.len() <= h.len() && forall|k: int|
        0 <= k < w.len() ==> ascii_lower(#[trigger] h[i + k]) == w[k]
}

/// Whether `h` holds the lower-case ASCII word `w` anywhere, ignoring ASCII case.
pub open spec fn mentions(h: Seq<char>, w: Seq<char>) -> bool {
    exists|i: int| holds_word_at(h, w, i)
}

/// The operating system that a user agent names: `(name, version, client-hint platform)`.
/// Windows if it mentions "windows"; Linux if it mentions "linux" but not "android"; macOS
/// otherwise.
pub open spec fn os_of(ua: Seq<char>) -> (Seq<char>, Seq<char>, Seq<char>) {
    if mentions(ua, "windows"@) {
        ("Windows"@, "10"@, "\"Windows\""@)
    } else if mentions(ua, "linux"@) && !mentions(ua, "android"@) {
        ("Linux"@, "x86_64"@, "\"Linux\""@)
    } else {
        ("Mac OS X"@, "10.15.7"@, "\"macOS\""@)
    }
}

fn lower(c: char) -> (r: char)
    ensures
        r == ascii_lower(c),
{
    if 'A' <= c && c <= 'Z' {
        ((c as u8) + 32) as char
    } else {
        c
    }
}

/// Whether `h` mentions the lower-case ASCII word `w`, ignoring ASCII case.
fn mentions_word(h: &[char], w: &[char]) -> (r: bool)
    ensures
        r == mentions(h@, w@),
{
    let n = h.len();
    let m = w.len();
    if m > n {
        proof {
            assert forall|i: int| !holds_word_at(h@, w@, i) by {}
        }
        return false;
    }
    let mut i: usize = 0;
    while i <= n - m
        invariant
            n == h@.len(),
            m == w@.len(),
            m <= n,
            i <= n - m + 1,
            forall|q: int| 0 <= q < i ==> !holds_word_at(h@, w@, q),
        decreases n - m + 1 - i,
    {
        let mut k: usize = 0;
        while k < m && lower(h[i + k]) == w[k]
            invariant
                n == h@.len(),
                m == w@.len(),
                i + m <= n,
                k <= m,
                forall|q: int| 0 <= q < k ==> ascii_lower(h@[i + q]) == w@[q],
            decreases m - k,
        {
            k = k + 1;
        }
        if k == m {
            assert(holds_word_at(h@, w@, i as int));
            return true;
        }
        assert(!holds_word_at(h@, w@, i as int)) by {
            assert(ascii_lower(h@[i + k]) != w@[k as int]);
        }
        i = i + 1;
    }
    assert forall|q: int| !holds_word_at(h@, w@, q) by {
        if 0 <= q && q < i {
        }
    }
    false
}

/// Infers the OS identity from the configured user agent, so that the client hints, the super
/// properties and the user agent agree: `(name, version, client-hint platform)`.
pub fn detect_os_from_ua(user_agent: &str) -> (r: (&'static str, &'static str, &'static str))
    ensures
        (r.0@, r.1@, r.2@) == os_of(user_agent@),
{
    let ua = chars_of(user_agent);
    let windows = chars_of("windows");
    let linux = chars_of("linux");
    let android = chars_of("android");
    if mentions_word(ua.as_slice(), windows.as_slice()) {
        ("Windows", "10", "\"Windows\"")
    } else if mentions_word(ua.as_slice(), linux.as_slice()) && !mentions_word(
        ua.as_slice(),
        android.as_slice(),
    ) {
        ("Linux", "x86_64", "\"Linux\"")
    } else {
        ("Mac OS X", "10.15.7", "\"macOS\"")
    }
}

/// The IDENTIFY properties for a client configuration.
pub open spec fn identify_properties_fit(p: IdentifyProperties, config: DiscordConfig) -> bool {
    let os = os_of(config.browser_user_agent@);
    &&& p.os@ == os.0
    &&& p.browser@ == "Chrome"@
    &&& p.device@ == Seq::<char>::empty()
    &&& p.system_locale@ == "en-US"@
    &&& p.browser_user_agent@ == config.browser_user_agent@
    &&& p.browser_version@ == config.browser_version@
    &&& p.os_version@ == os.1
    &&& p.referrer@ == Seq::<char>::empty()
    &&& p.referring_domain@ == Seq::<char>::empty()
    &&& p.referrer_current@ == Seq::<char>::empty()
    &&& p.referring_domain_current@ == Seq::<char>::empty()
    &&& p.release_channel@ == "stable"@
    &&& p.client_build_number == config.client_build_number
    &&& p.client_event_source is None
}

/// Builds the IDENTIFY properties from the Discord section of the configuration; they match the
/// official web client.
pub fn build_identify_properties(config: &DiscordConfig) -> (r: IdentifyProperties)
    ensures
        identify_properties_fit(r, *config),
{
    let (os_name, os_version, _) = detect_os_from_ua(config.browser_user_agent.as_str());
    IdentifyProperties {
        os: copy_str(os_name),
        browser: String::from_str("Chrome"),
        device: String::new(),
        system_locale: String::from_str("en-US"),
        browser_user_agent: copy_str(config.browser_user_agent.as_str()),
        browser_version: copy_str(config.browser_version.as_str()),
        os_version: copy_str(os_version),
        referrer: String::new(),
        referring_domain: String::new(),
        referrer_current: String::new(),
        referring_domain_current: String::new(),
        release_channel: String::from_str("stable"),
        client_build_number: config.client_build_number,
        client_event_source: None,
    }
}

/// The character of a six-bit value in the standard base64 alphabet.
pub open spec fn base64_char(v: int) -> char {
    if v < 26 {
        ('A' as int + v) as char
    } else if v < 52 {
        ('a' as int + (v - 26)) as char
    } else if v < 62 {
        ('0' as int + (v - 52)) as char
    } else if v == 62 {
        '+'
    } else {
        '/'
    }
}

/// The standard, padded base64 encoding of some bytes (RFC 4648): each group of three bytes
/// gives four characters of six bits each; a last group of one or two bytes is padded with
/// `=` to four characters.
pub open spec fn base64_standard(b: Seq<u8>) -> Seq<char>
    decreases b.len(),
{
    if b.len() == 0 {
        Seq::empty()
    } else {
        let x = b[0] as int;
        let y = if b.len() > 1 { b[1] as int } else { 0 };
        let z = if b.len() > 2 { b[2] as int } else { 0 };
        let c0 = base64_char(x / 4);
        let c1 = base64_char((x % 4) * 16 + y / 16);
        let c2 = if b.len() > 1 { base64_char((y % 16) * 4 + z / 64) } else { '=' };
        let c3 = if b.len() > 2 { base64_char(z % 64) } else { '=' };
        if b.len() <= 3 {
            seq![c0, c1, c2, c3]
        } else {
            seq![c0, c1, c2, c3] + base64_standard(b.subrange(3, b.len() as int))
        }
    }
}

/// Calls `base64::engine::general_purpose::STANDARD.encode`. Trusted: the result is the padded
/// standard encoding of the bytes, four characters for every started group of three bytes.
#[verifier::external_body]
pub(crate) fn base64_encode_bytes(bytes: &[u8]) -> (r: String)
    ensures
        r@ == base64_standard(bytes@),
        r@.len() == 4 * ((bytes@.len() + 2) / 3),
{
    base64::engine::general_purpose::STANDARD.encode(bytes)
}

/// The `X-Super-Properties` value for the JSON text of the IDENTIFY properties: the base64
/// encoding of its UTF-8 bytes.
pub fn encode_super_properties(json: &str) -> (r: String)
    ensures
        r@ == base64_standard(json.spec_bytes()),
{
    base64_encode_bytes(json.as_bytes())
}

/// Whether a character may stand in an HTTP header value (each of its UTF-8 bytes may).
pub open spec fn header_char_ok(c: char) -> bool {
    ((c as u32) >= 32 && (c as u32) != 127) || (c as u32) == 9
}

/// Whether a text may be an HTTP header value.
pub open spec fn header_value_ok(s: Seq<char>) -> bool {
    forall|k: int| 0 <= k < s.len() ==> header_char_ok(#[trigger] s[k])
}

/// Whether a text may be an HTTP header value.
pub fn valid_header_value(s: &str) -> (r: bool)
    ensures
        r == header_value_ok(s@),
{
    let c = chars_of(s);
    let mut i: usize = 0;
    while i < c.len()
        invariant
            c@ == s@,
            i <= c@.len(),
            forall|k: int| 0 <= k < i ==> header_char_ok(#[trigger] c@[k]),
        decreases c@.len() - i,
    {
        let x = c[i] as u32;
        if !((x >= 32 && x != 127) || x == 9) {
            return false;
        }
        i = i + 1;
    }
    true
}

/// The major version of a browser version: the text before its first `.`.
pub open spec fn major_version(v: Seq<char>) -> Seq<char> {
    v.subrange(0, next_char(v, 0, '.'))
}

/// The `Sec-Ch-Ua` client hint of Chrome at a major version.
pub open spec fn sec_ch_ua(major: Seq<char>) -> Seq<char> {
    "\"Chromium\";v=\""@ + major + "\", \"Not(A:Brand\";v=\"24\", \"Google Chrome\";v=\""@ + major
        + "\""@
}

/// One HTTP header: its name and value.
#[derive(Debug, Clone)]
pub struct Header {
    pub name: String,
    pub value: String,
}

/// The headers of the web client, in order, for a configuration, a token, the encoded super
/// properties and the IANA time zone.
pub open spec fn web_headers(
    config: DiscordConfig,
    token: Seq<char>,
    super_props: Seq<char>,
    timezone: Seq<char>,
) -> Seq<(Seq<char>, Seq<char>)> {
    seq![
        ("User-Agent"@, config.browser_user_agent@),
        ("X-Super-Properties"@, super_props),
        ("X-Discord-Locale"@, "en-US"@),
        ("Authorization"@, token),
        ("Sec-Ch-Ua"@, sec_ch_ua(major_version(config.browser_version@))),
        ("Sec-Ch-Ua-Mobile"@, "?0"@),
        ("Sec-Ch-Ua-Platform"@, os_of(config.browser_user_agent@).2),
        ("Sec-Fetch-Dest"@, "empty"@),
        ("Sec-Fetch-Mode"@, "cors"@),
        ("Sec-Fetch-Site"@, "same-origin"@),
        ("Origin"@, "https://discord.com"@),
        ("Referer"@, "https://discord.com/channels/@me"@),
        ("Accept"@, "*/*"@),
        ("Accept-Language"@, "en-US,en;q=0.9"@),
        ("X-Discord-Timezone"@, timezone),
        ("X-Debug-Options"@, "bugReporterEnabled"@),
    ]
}

/// The model of a list of headers.
pub open spec fn headers_view(v: Seq<Header>) -> Seq<(Seq<char>, Seq<char>)> {
    Seq::new(v.len(), |k: int| (v[k].name@, v[k].value@))
}

/// A header value was not a valid HTTP header value.
#[derive(Debug, Clone, Copy, PartialEq, Eq, Structural)]
pub struct InvalidHeaderValue;

fn push_header(headers: &mut Vec<Header>, name: &str, value: String)
    ensures
        headers_view(final(headers)@) == headers_view(old(headers)@).push((name@, value@)),
{
    let ghost before = headers@;
    headers.push(Header { name: copy_str(name), value });
    assert(headers_view(headers@) =~= headers_view(before).push((name@, value@)));
}

/// Builds the headers that mimic the Discord web client, to send on every REST request; fails
/// when the user agent, the super properties, the token or the time zone cannot be a header
/// value.
pub fn build_http_headers(
    config: &DiscordConfig,
    token: &str,
    super_props: &str,
    timezone: &str,
) -> (r: Result<Vec<Header>, InvalidHeaderValue>)
    ensures
        r is Ok <==> header_value_ok(config.browser_user_agent@) && header_value_ok(super_props@)
            && header_value_ok(token@) && header_value_ok(
            sec_ch_ua(major_version(config.browser_version@)),
        ) && header_value_ok(timezone@),
        r matches Ok(h) ==> headers_view(h@) == web_headers(
            *config,
            token@,
            super_props@,
            timezone@,
        ),
{
    let mut headers: Vec<Header> = Vec::new();
    if !valid_header_value(config.browser_user_agent.as_str()) {
        return Err(InvalidHeaderValue);
    }
    push_header(&mut headers, "User-Agent", copy_str(config.browser_user_agent.as_str()));
    if !valid_header_value(super_props) {
        return Err(InvalidHeaderValue);
    }
    push_header(&mut headers, "X-Super-Properties", copy_str(super_props));
    push_header(&mut headers, "X-Discord-Locale", String::from_str("en-US"));
    if !valid_header_value(token) {
        return Err(InvalidHeaderValue);
    }
    push_header(&mut headers, "Authorization", copy_str(token));
    let version = chars_of(config.browser_version.as_str());
    let mut dot: usize = 0;
    while dot < version.len() && version[dot] != '.'
        invariant
            dot <= version@.len(),
            next_char(version@, dot as int, '.') == next_char(version@, 0, '.'),
        decreases version@.len() - dot,
    {
        dot = dot + 1;
    }
    let major = string_from_chars(vstd::slice::slice_subrange(version.as_slice(), 0, dot));
    let a = concat_str("\"Chromium\";v=\"", major.as_str());
    let b = concat_str(a.as_str(), "\", \"Not(A:Brand\";v=\"24\", \"Google Chrome\";v=\"");
    let c = concat_str(b.as_str(), major.as_str());
    let hint = concat_str(c.as_str(), "\"");
    if !valid_header_value(hint.as_str()) {
        return Err(InvalidHeaderValue);
    }
    push_header(&mut headers, "Sec-Ch-Ua", hint);
    let (_, _, platform) = detect_os_from_ua(config.browser_user_agent.as_str());
    push_header(&mut headers, "Sec-Ch-Ua-Mobile", String::from_str("?0"));
    push_header(&mut headers, "Sec-Ch-Ua-Platform", copy_str(platform));
    push_header(&mut headers, "Sec-Fetch-Dest", String::from_str("empty"));
    push_header(&mut headers, "Sec-Fetch-Mode", String::from_str("cors"));
    push_header(&mut headers, "Sec-Fetch-Site", String::from_str("same-origin"));
    push_header(&mut headers, "Origin", String::from_str("https://discord.com"));
    push_header(&mut headers, "Referer", String::from_str("https://discord.com/channels/@me"));
    push_header(&mut headers, "Accept", String::from_str("*/*"));
    push_header(&mut headers, "Accept-Language", String::from_str("en-US,en;q=0.9"));
    if !valid_header_value(timezone) {
        return Err(InvalidHeaderValue);
    }
    push_header(&mut headers, "X-Discord-Timezone", copy_str(timezone));
    push_header(&mut headers, "X-Debug-Options", String::from_str("bugReporterEnabled"));
    assert(headers_view(headers@) =~= web_headers(*config, token@, super_props@, timezone@));
    Ok(headers)
}

/// The IANA name of the system's time zone, from the `iana-time-zone` crate. Trusted: it reads
/// the system's settings, so nothing is claimed of it.
#[verifier::external_body]
fn system_timezone_name() -> Option<String> {
    iana_time_zone::get_timezone().ok()
}

/// The time zone to announce: the one read, or `America/New_York` when none could be read.
pub fn timezone_or_default(tz: Option<String>) -> (r: String)
    ensures
        tz matches Some(t) ==> r@ == t@,
        tz is None ==> r@ == "America/New_York"@,
{
    match tz {
        Some(t) => t,
        None => String::from_str("America/New_York"),
    }
}

/// The system's IANA time zone, or `America/New_York` when it cannot be read.
pub fn system_timezone() -> String {
    timezone_or_default(system_timezone_name())
}


/// A WebSocket upgrade request: where to connect, and the browser-like headers to add to the
/// ones the WebSocket handshake sets itself.
#[derive(Debug)]
pub struct WsRequest {
    pub url: String,
    pub headers: Vec<Header>,
}

/// The headers that make a WebSocket upgrade look like the browser's.
pub open spec fn ws_headers(config: DiscordConfig) -> Seq<(Seq<char>, Seq<char>)> {
    seq![
        ("Origin"@, "https://discord.com"@),
        ("User-Agent"@, config.browser_user_agent@),
        ("Accept-Language"@, "en-US,en;q=0.9"@),
        ("Cache-Control"@, "no-cache"@),
        ("Pragma"@, "no-cache"@),
    ]
}

/// Builds the upgrade request of every gateway and QR-login WebSocket: the URL with the
/// browser's origin, user agent, language and no-cache headers. Fails when the user agent
/// cannot be a header value.
pub fn build_ws_request(url: &str, config: &DiscordConfig) -> (r: Result<WsRequest, InvalidHeaderValue>)
    ensures
        r is Ok <==> header_value_ok(config.browser_user_agent@),
        r matches Ok(w) ==> w.url@ == url@ && headers_view(w.headers@) == ws_headers(*config),
{
    if !valid_header_value(config.browser_user_agent.as_str()) {
        return Err(InvalidHeaderValue);
    }
    let mut headers: Vec<Header> = Vec::new();
    push_header(&mut headers, "Origin", copy_str("https://discord.com"));
    push_header(&mut headers, "User-Agent", copy_str(config.browser_user_agent.as_str()));
    push_header(&mut headers, "Accept-Language", copy_str("en-US,en;q=0.9"));
    push_header(&mut headers, "Cache-Control", copy_str("no-cache"));
    push_header(&mut headers, "Pragma", copy_str("no-cache"));
    assert(headers_view(headers@) =~= ws_headers(*config));
    Ok(WsRequest { url: copy_str(url), headers })
}

/// The client-hint platform names the same system as the detected OS: "Windows" for Windows,
/// "Linux" for Linux and "macOS" for Mac OS X, each in double quotes; and the detected OS is
/// one of those three.
pub proof fn law_platform_hint_matches_os(ua: Seq<char>)
    ensures
        os_of(ua).0 == "Windows"@ || os_of(ua).0 == "Linux"@ || os_of(ua).0 == "Mac OS X"@,
        os_of(ua).0 == "Windows"@ ==> os_of(ua).2 == seq!['"'] + "Windows"@ + seq!['"'],
        os_of(ua).0 == "Linux"@ ==> os_of(ua).2 == seq!['"'] + "Linux"@ + seq!['"'],
        os_of(ua).0 == "Mac OS X"@ ==> os_of(ua).2 == seq!['"'] + "macOS"@ + seq!['"'],
        mentions(ua, "windows"@) ==> os_of(ua).0 == "Windows"@,
{
    reveal_strlit("Windows");
    reveal_strlit("Linux");
    reveal_strlit("Mac OS X");
    reveal_strlit("macOS");
    reveal_strlit("\"Windows\"");
    reveal_strlit("\"Linux\"");
    reveal_strlit("\"macOS\"");
    assert("\"Windows\""@ =~= seq!['"'] + "Windows"@ + seq!['"']);
    assert("\"Linux\""@ =~= seq!['"'] + "Linux"@ + seq!['"']);
    assert("\"macOS\""@ =~= seq!['"'] + "macOS"@ + seq!['"']);
}

} // verus!
