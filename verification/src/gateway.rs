use vstd::prelude::*;
use std::io::Write;
use crate::anti_detection::{build_identify_properties, identify_properties_fit, IdentifyProperties};
use crate::config::DiscordConfig;
use crate::event::{parse_gateway_payload, event_fits, GatewayEvent};
use crate::json::{as_u64, entry, jv, member, number, text, Json, JsonNumber, JsonValue};
use crate::text::copy_str;

verus! {

/// The Discord gateway's address.
pub const GATEWAY_URL: &'static str = "wss://gateway.discord.gg/?v=10&encoding=json&compress=zlib-stream";

/// Largest reconnection delay, in seconds.
pub const MAX_BACKOFF_SECS: u64 = 30;

/// First reconnection delay, in seconds.
pub const INITIAL_BACKOFF_SECS: u64 = 1;

/// The next reconnection delay: double the current one, at most the maximum.
pub open spec fn next_backoff(current: u64) -> u64 {
    if current * 2 <= MAX_BACKOFF_SECS {
        (current * 2) as u64
    } else {
        MAX_BACKOFF_SECS
    }
}

/// Doubles the delay, capped at the maximum.
pub fn compute_backoff(current: u64) -> (next: u64)
    requires
        current * 2 <= u64::MAX,
    ensures
        next == next_backoff(current),
{
    let doubled = current * 2;
    if doubled < MAX_BACKOFF_SECS {
        doubled
    } else {
        MAX_BACKOFF_SECS
    }
}

/// What a gateway connection leaves behind when it ends, for resuming.
#[derive(Debug, Clone)]
pub struct SessionInfo {
    pub session_id: Option<String>,
    pub resume_url: Option<String>,
    pub sequence: Option<u64>,
}

/// What to do after a connection ends.
#[derive(Debug, Clone, Copy, PartialEq, Eq, Structural)]
pub enum ReconnectAction {
    /// Resume the existing session.
    Resume,
    /// Identify afresh on a new connection.
    Reconnect,
    /// Give up.
    Stop,
}

// ---------------------------------------------------------------------------
// zlib-stream decompression
// ---------------------------------------------------------------------------

/// The four bytes that end each complete message of a zlib stream.
pub open spec fn zlib_suffix() -> Seq<u8> {
    seq![0x00u8, 0x00u8, 0xFFu8, 0xFFu8]
}

/// What inflating a zlib stream gives, as the `flate2` crate computes it.
pub uninterp spec fn zlib_inflate(data: Seq<u8>) -> Option<Seq<u8>>;

/// Runs `flate2::write::ZlibDecoder` over the bytes (write them all, then finish). Trusted: the
/// result is the named function of the bytes; `None` when decoding fails.
#[verifier::external_body]
fn inflate(data: &[u8]) -> (r: Option<Vec<u8>>)
    ensures
        match r {
            Some(v) => zlib_inflate(data@) == Some(v@),
            None => zlib_inflate(data@) is None,
        },
{
    let mut decoder = flate2::write::ZlibDecoder::new(Vec::new());
    match decoder.write_all(data) {
        Ok(()) => decoder.finish().ok(),
        Err(_) => None,
    }
}

/// The text that some bytes encode in UTF-8, if they are valid UTF-8.
pub uninterp spec fn utf8_decode(bytes: Seq<u8>) -> Option<Seq<char>>;

/// Calls `String::from_utf8` from std. Trusted: the result is the named function of the bytes;
/// `None` when they are not valid UTF-8.
#[verifier::external_body]
pub(crate) fn utf8_text(bytes: Vec<u8>) -> (r: Option<String>)
    ensures
        match r {
            Some(s) => utf8_decode(bytes@) == Some(s@),
            None => utf8_decode(bytes@) is None,
        },
{
    String::from_utf8(bytes).ok()
}

/// Why a complete zlib message could not be read.
#[derive(Debug, Clone, Copy, PartialEq, Eq, Structural)]
pub enum DecompressError {
    /// The stream did not inflate.
    Inflate,
    /// The inflated bytes are not UTF-8.
    NotUtf8,
}

impl DecompressError {
    /// The error's message.
    pub fn message(&self) -> (r: &'static str)
        ensures
            *self == DecompressError::Inflate ==> r@ == "zlib decompression failed"@,
            *self == DecompressError::NotUtf8 ==> r@ == "Decompressed data is not valid UTF-8"@,
    {
        match self {
            DecompressError::Inflate => "zlib decompression failed",
            DecompressError::NotUtf8 => "Decompressed data is not valid UTF-8",
        }
    }
}

/// A zlib-stream decompressor that keeps state across frames.
pub struct ZlibDecompressor {
    buffer: Vec<u8>,
}

impl View for ZlibDecompressor {
    type V = Seq<u8>;

    /// The bytes buffered since the last complete message.
    closed spec fn view(&self) -> Seq<u8> {
        self.buffer@
    }
}

/// Whether some bytes end with the zlib-stream suffix.
pub open spec fn ends_with_suffix(b: Seq<u8>) -> bool {
    b.len() >= 4 && b.subrange(b.len() - 4, b.len() as int) == zlib_suffix()
}

impl ZlibDecompressor {
    /// A decompressor with nothing buffered.
    pub fn new() -> (d: Self)
        ensures
            d@ == Seq::<u8>::empty(),
    {
        ZlibDecompressor { buffer: Vec::new() }
    }

    /// Feeds a frame. When the buffered bytes end with the zlib-stream suffix, the whole buffer
    /// is inflated and read as UTF-8 text; otherwise the frame stays buffered and nothing comes
    /// out. A buffer that does not inflate stays; one that inflates is dropped.
    pub fn decompress(&mut self, data: &[u8]) -> (r: Result<Option<String>, DecompressError>)
        ensures
            ({
                let buf = old(self)@ + data@;
                if ends_with_suffix(buf) {
                    match zlib_inflate(buf) {
                        None => r == Err::<Option<String>, DecompressError>(
                            DecompressError::Inflate,
                        ) && final(self)@ == buf,
                        Some(out) => final(self)@ == Seq::<u8>::empty() && match utf8_decode(
                            out,
                        ) {
                            Some(t) => (r matches Ok(Some(s)) && s@ == t),
                            None => r == Err::<Option<String>, DecompressError>(
                                DecompressError::NotUtf8,
                            ),
                        },
                    }
                } else {
                    r == Ok::<Option<String>, DecompressError>(None) && final(self)@ == buf
                }
            }),
    {
        let ghost before = self.buffer@;
        let mut i: usize = 0;
        while i < data.len()
            invariant
                i <= data@.len(),
                self.buffer@ == before + data@.subrange(0, i as int),
            decreases data@.len() - i,
        {
            self.buffer.push(data[i]);
            assert(self.buffer@ =~= before + data@.subrange(0, i + 1));
            i = i + 1;
        }
        assert(data@.subrange(0, data@.len() as int) =~= data@);
        let n = self.buffer.len();
        let complete = n >= 4 && self.buffer[n - 4] == 0x00 && self.buffer[n - 3] == 0x00
            && self.buffer[n - 2] == 0xFF && self.buffer[n - 1] == 0xFF;
        proof {
            let b = self.buffer@;
            if n >= 4 {
                if complete {
                    assert(b.subrange(b.len() - 4, b.len() as int) =~= zlib_suffix());
                } else if ends_with_suffix(b) {
                    let t = b.subrange(b.len() - 4, b.len() as int);
                    assert(t[0] == b[n - 4]);
                    assert(t[1] == b[n - 3]);
                    assert(t[2] == b[n - 2]);
                    assert(t[3] == b[n - 1]);
                }
            }
        }
        if complete {
            let decompressed = match inflate(self.buffer.as_slice()) {
                Some(v) => v,
                None => {
                    return Err(DecompressError::Inflate);
                },
            };
            self.buffer = Vec::new();
            match utf8_text(decompressed) {
                Some(text) => Ok(Some(text)),
                None => Err(DecompressError::NotUtf8),
            }
        } else {
            Ok(None)
        }
    }
}

// ---------------------------------------------------------------------------
// Payloads sent to the gateway
// ---------------------------------------------------------------------------

/// The IDENTIFY properties as JSON with camelCase keys: the form encoded into the
/// `X-Super-Properties` header.
pub open spec fn properties_json(p: IdentifyProperties) -> Json {
    Json::Object(
        seq![
            ("os"@, Json::Str(p.os@)),
            ("browser"@, Json::Str(p.browser@)),
            ("device"@, Json::Str(p.device@)),
            ("systemLocale"@, Json::Str(p.system_locale@)),
            ("browserUserAgent"@, Json::Str(p.browser_user_agent@)),
            ("browserVersion"@, Json::Str(p.browser_version@)),
            ("osVersion"@, Json::Str(p.os_version@)),
            ("referrer"@, Json::Str(p.referrer@)),
            ("referringDomain"@, Json::Str(p.referring_domain@)),
            ("referrerCurrent"@, Json::Str(p.referrer_current@)),
            ("referringDomainCurrent"@, Json::Str(p.referring_domain_current@)),
            ("releaseChannel"@, Json::Str(p.release_channel@)),
            ("clientBuildNumber"@, Json::Number(JsonNumber::PosInt(p.client_build_number))),
            (
                "clientEventSource"@,
                match p.client_event_source {
                    Some(s) => Json::Str(s@),
                    None => Json::Null,
                },
            ),
        ],
    )
}

/// Builds the camelCase JSON form of the IDENTIFY properties, encoded into `X-Super-Properties`.
pub fn identify_properties_json(p: &IdentifyProperties) -> (r: JsonValue)
    ensures
        jv(r) == properties_json(*p),
{
    let source = match &p.client_event_source {
        Some(s) => text(s.as_str()),
        None => JsonValue::Null,
    };
    let mut entries: Vec<(String, JsonValue)> = Vec::new();
    entries.push(entry("os", text(p.os.as_str())));
    entries.push(entry("browser", text(p.browser.as_str())));
    entries.push(entry("device", text(p.device.as_str())));
    entries.push(entry("systemLocale", text(p.system_locale.as_str())));
    entries.push(entry("browserUserAgent", text(p.browser_user_agent.as_str())));
    entries.push(entry("browserVersion", text(p.browser_version.as_str())));
    entries.push(entry("osVersion", text(p.os_version.as_str())));
    entries.push(entry("referrer", text(p.referrer.as_str())));
    entries.push(entry("referringDomain", text(p.referring_domain.as_str())));
    entries.push(entry("referrerCurrent", text(p.referrer_current.as_str())));
    entries.push(entry("referringDomainCurrent", text(p.referring_domain_current.as_str())));
    entries.push(entry("releaseChannel", text(p.release_channel.as_str())));
    entries.push(entry("clientBuildNumber", number(p.client_build_number)));
    entries.push(entry("clientEventSource", source));
    proof {
        crate::json::lemma_jentries_index(entries@);
        assert(crate::json::jentries(entries@) =~= properties_json(*p)->Object_0);
    }
    JsonValue::Object(entries)
}

/// The IDENTIFY properties as the IDENTIFY payload carries them, with snake_case keys.
pub open spec fn payload_properties_json(p: IdentifyProperties) -> Json {
    Json::Object(
        seq![
            ("os"@, Json::Str(p.os@)),
            ("browser"@, Json::Str(p.browser@)),
            ("device"@, Json::Str(p.device@)),
            ("system_locale"@, Json::Str(p.system_locale@)),
            ("browser_user_agent"@, Json::Str(p.browser_user_agent@)),
            ("browser_version"@, Json::Str(p.browser_version@)),
            ("os_version"@, Json::Str(p.os_version@)),
            ("referrer"@, Json::Str(p.referrer@)),
            ("referring_domain"@, Json::Str(p.referring_domain@)),
            ("referrer_current"@, Json::Str(p.referrer_current@)),
            ("referring_domain_current"@, Json::Str(p.referring_domain_current@)),
            ("release_channel"@, Json::Str(p.release_channel@)),
            ("client_build_number"@, Json::Number(JsonNumber::PosInt(p.client_build_number))),
            (
                "client_event_source"@,
                match p.client_event_source {
                    Some(s) => Json::Str(s@),
                    None => Json::Null,
                },
            ),
        ],
    )
}

/// Builds the IDENTIFY properties as the IDENTIFY payload carries them (snake_case keys).
pub fn payload_properties_value(p: &IdentifyProperties) -> (r: JsonValue)
    ensures
        jv(r) == payload_properties_json(*p),
{
    let source = match &p.client_event_source {
        Some(s) => text(s.as_str()),
        None => JsonValue::Null,
    };
    let mut entries: Vec<(String, JsonValue)> = Vec::new();
    entries.push(entry("os", text(p.os.as_str())));
    entries.push(entry("browser", text(p.browser.as_str())));
    entries.push(entry("device", text(p.device.as_str())));
    entries.push(entry("system_locale", text(p.system_locale.as_str())));
    entries.push(entry("browser_user_agent", text(p.browser_user_agent.as_str())));
    entries.push(entry("browser_version", text(p.browser_version.as_str())));
    entries.push(entry("os_version", text(p.os_version.as_str())));
    entries.push(entry("referrer", text(p.referrer.as_str())));
    entries.push(entry("referring_domain", text(p.referring_domain.as_str())));
    entries.push(entry("referrer_current", text(p.referrer_current.as_str())));
    entries.push(entry("referring_domain_current", text(p.referring_domain_current.as_str())));
    entries.push(entry("release_channel", text(p.release_channel.as_str())));
    entries.push(entry("client_build_number", number(p.client_build_number)));
    entries.push(entry("client_event_source", source));
    proof {
        crate::json::lemma_jentries_index(entries@);
        assert(crate::json::jentries(entries@) =~= payload_properties_json(*p)->Object_0);
    }
    JsonValue::Object(entries)
}

/// The IDENTIFY (opcode 2) payload of a user account: no intents.
pub open spec fn identify_payload(token: Seq<char>, p: IdentifyProperties) -> Json {
    Json::Object(
        seq![
            ("op"@, Json::Number(JsonNumber::PosInt(2))),
            (
                "d"@,
                Json::Object(
                    seq![
                        ("token"@, Json::Str(token)),
                        ("properties"@, payload_properties_json(p)),
                        ("compress"@, Json::Bool(false)),
                        ("large_threshold"@, Json::Number(JsonNumber::PosInt(250))),
                    ],
                ),
            ),
        ],
    )
}

/// Builds the IDENTIFY payload for a user account, with the client's identity properties.
pub fn build_identify_payload(token: &str, config: &DiscordConfig) -> (r: JsonValue)
    ensures
        exists|p: IdentifyProperties|
            identify_properties_fit(p, *config) && jv(r) == identify_payload(token@, p),
{
    let properties = build_identify_properties(config);
    let ghost p = properties;
    let props = payload_properties_value(&properties);
    let mut d: Vec<(String, JsonValue)> = Vec::new();
    d.push(entry("token", text(token)));
    d.push(entry("properties", props));
    d.push(entry("compress", JsonValue::Bool(false)));
    d.push(entry("large_threshold", number(250)));
    let mut top: Vec<(String, JsonValue)> = Vec::new();
    top.push(entry("op", number(2)));
    top.push(entry("d", JsonValue::Object(d)));
    proof {
        crate::json::lemma_jentries_index(d@);
        crate::json::lemma_jentries_index(top@);
        assert(crate::json::jentries(d@) =~= identify_payload(token@, p)->Object_0[1].1->Object_0);
        assert(crate::json::jentries(top@) =~= identify_payload(token@, p)->Object_0);
    }
    JsonValue::Object(top)
}

/// The RESUME (opcode 6) payload.
pub open spec fn resume_payload(token: Seq<char>, session_id: Seq<char>, sequence: u64) -> Json {
    Json::Object(
        seq![
            ("op"@, Json::Number(JsonNumber::PosInt(6))),
            (
                "d"@,
                Json::Object(
                    seq![
                        ("token"@, Json::Str(token)),
                        ("session_id"@, Json::Str(session_id)),
                        ("seq"@, Json::Number(JsonNumber::PosInt(sequence))),
                    ],
                ),
            ),
        ],
    )
}

/// Builds the RESUME payload.
pub fn build_resume_payload(token: &str, session_id: &str, sequence: u64) -> (r: JsonValue)
    ensures
        jv(r) == resume_payload(token@, session_id@, sequence),
{
    let mut d: Vec<(String, JsonValue)> = Vec::new();
    d.push(entry("token", text(token)));
    d.push(entry("session_id", text(session_id)));
    d.push(entry("seq", number(sequence)));
    let mut top: Vec<(String, JsonValue)> = Vec::new();
    top.push(entry("op", number(6)));
    top.push(entry("d", JsonValue::Object(d)));
    proof {
        crate::json::lemma_jentries_index(d@);
        crate::json::lemma_jentries_index(top@);
        assert(crate::json::jentries(d@) =~= resume_payload(token@, session_id@, sequence)->Object_0[1].1->Object_0);
        assert(crate::json::jentries(top@) =~= resume_payload(token@, session_id@, sequence)->Object_0);
    }
    JsonValue::Object(top)
}

/// The heartbeat (opcode 1) payload: the last sequence number, or null.
pub open spec fn heartbeat_payload(sequence: Option<u64>) -> Json {
    Json::Object(
        seq![
            ("op"@, Json::Number(JsonNumber::PosInt(1))),
            (
                "d"@,
                match sequence {
                    Some(s) => Json::Number(JsonNumber::PosInt(s)),
                    None => Json::Null,
                },
            ),
        ],
    )
}

/// Builds a heartbeat payload.
pub fn build_heartbeat_payload(sequence: Option<u64>) -> (r: JsonValue)
    ensures
        jv(r) == heartbeat_payload(sequence),
{
    let d = match sequence {
        Some(s) => number(s),
        None => JsonValue::Null,
    };
    let mut top: Vec<(String, JsonValue)> = Vec::new();
    top.push(entry("op", number(1)));
    top.push(entry("d", d));
    proof {
        crate::json::lemma_jentries_index(top@);
        assert(crate::json::jentries(top@) =~= heartbeat_payload(sequence)->Object_0);
    }
    JsonValue::Object(top)
}

// ---------------------------------------------------------------------------
// One connection: what each payload changes and calls for
// ---------------------------------------------------------------------------

/// What the connection must do after a payload.
#[derive(Debug)]
pub enum ConnectionStep {
    /// Send IDENTIFY (this payload) and start the preliminary heartbeat timer.
    Identify { payload: JsonValue, heartbeat_interval_ms: u64 },
    /// Send RESUME (this payload) and start heartbeating.
    Resume { payload: JsonValue, heartbeat_interval_ms: u64 },
    /// Start heartbeating every so many milliseconds, the session being ready.
    StartHeartbeat { interval_ms: u64 },
    /// Nothing beyond forwarding the event.
    Forward,
}

/// What one gateway connection has learnt so far.
#[derive(Debug)]
pub struct ConnectionTracker {
    pub sequence: Option<u64>,
    pub session_id: Option<String>,
    pub resume_url: Option<String>,
    pub heartbeat_interval_ms: Option<u64>,
    /// The session being resumed, and from which sequence number, if this connection resumes.
    pub resuming: Option<(String, u64)>,
}

/// The sequence number after a payload: its `s` number when it has one.
pub open spec fn sequence_after(old: Option<u64>, p: Json) -> Option<u64> {
    match as_u64(member(p, "s"@)) {
        Some(s) => Some(s),
        None => old,
    }
}

/// The `s` number of a payload, if it has one.
pub open spec fn payload_sequence(p: Json) -> Option<u64> {
    as_u64(member(p, "s"@))
}

/// Over a whole connection, the sequence number that the tracker holds after the payloads
/// `ps` (each step as `on_payload` ensures, `seqs[k + 1] == sequence_after(seqs[k], ps[k])`) is
/// the `s` of the last payload that has one, or the starting number when none has.
pub proof fn law_connection_keeps_last_sequence(seqs: Seq<Option<u64>>, ps: Seq<Json>)
    requires
        seqs.len() == ps.len() + 1,
        forall|k: int| 0 <= k < ps.len() ==> #[trigger] seqs[k + 1] == sequence_after(seqs[k], ps[k]),
    ensures
        forall|i: int|
            0 <= i < ps.len() && payload_sequence(ps[i]) is Some && (forall|j: int|
                i < j < ps.len() ==> payload_sequence(#[trigger] ps[j]) is None) ==> seqs.last()
                == payload_sequence(#[trigger] ps[i]),
        (forall|i: int| 0 <= i < ps.len() ==> payload_sequence(#[trigger] ps[i]) is None)
            ==> seqs.last() == seqs[0],
    decreases ps.len(),
{
    if ps.len() > 0 {
        let n = ps.len() - 1;
        let s2 = seqs.drop_last();
        let p2 = ps.drop_last();
        assert forall|k: int| 0 <= k < p2.len() implies #[trigger] s2[k + 1] == sequence_after(s2[k], p2[k]) by {
            assert(seqs[k + 1] == sequence_after(seqs[k], ps[k]));
        }
        law_connection_keeps_last_sequence(s2, p2);
        assert(seqs[n + 1] == sequence_after(seqs[n], ps[n]));
        assert(s2.last() == seqs[n]);
        assert forall|i: int|
            0 <= i < ps.len() && payload_sequence(ps[i]) is Some && (forall|j: int|
                i < j < ps.len() ==> payload_sequence(#[trigger] ps[j]) is None) implies seqs.last()
                == payload_sequence(#[trigger] ps[i]) by {
            if i < n {
                assert(payload_sequence(ps[n]) is None);
                assert(p2[i] == ps[i]);
                assert forall|j: int| i < j < p2.len() implies payload_sequence(#[trigger] p2[j]) is None by {
                    assert(p2[j] == ps[j]);
                }
            }
        }
        if forall|i: int| 0 <= i < ps.len() ==> payload_sequence(#[trigger] ps[i]) is None {
            assert(payload_sequence(ps[n]) is None);
            assert forall|i: int| 0 <= i < p2.len() implies payload_sequence(#[trigger] p2[i]) is None by {
                assert(p2[i] == ps[i]);
            }
        }
    }
}

/// The model of an optional text.
pub open spec fn opt_text(o: Option<String>) -> Option<Seq<char>> {
    match o {
        Some(t) => Some(t@),
        None => None,
    }
}

/// The session id and resume address that a READY event announces.
pub open spec fn ready_session(ev: GatewayEvent) -> Option<(Seq<char>, Seq<char>)> {
    match ev {
        GatewayEvent::Ready(rd) => Some((rd.session_id@, rd.resume_gateway_url@)),
        _ => None,
    }
}

/// The session id and resume address as a READY event leaves them.
pub open spec fn ready_state(ev: GatewayEvent) -> (Option<Seq<char>>, Option<Seq<char>>) {
    match ready_session(ev) {
        Some((s, u)) => (Some(s), Some(u)),
        None => (None, None),
    }
}

/// The session id and resume address kept after an event: a READY of a connection that does
/// not resume replaces them, anything else keeps them.
pub open spec fn session_after(
    old: (Option<Seq<char>>, Option<Seq<char>>),
    ev: GatewayEvent,
    resuming: bool,
) -> (Option<Seq<char>>, Option<Seq<char>>) {
    match ready_session(ev) {
        Some((s, u)) => if resuming {
            old
        } else {
            (Some(s), Some(u))
        },
        None => old,
    }
}

/// Over a whole connection that does not resume, the session id and resume address that the
/// tracker holds after the events `evs` (each step as `on_payload` ensures) are those of the
/// last READY, or the starting ones when no READY came; a resuming connection keeps them.
pub proof fn law_connection_keeps_last_session(
    sessions: Seq<(Option<Seq<char>>, Option<Seq<char>>)>,
    evs: Seq<GatewayEvent>,
    resuming: bool,
)
    requires
        sessions.len() == evs.len() + 1,
        forall|k: int|
            0 <= k < evs.len() ==> #[trigger] sessions[k + 1] == session_after(sessions[k], evs[k], resuming),
    ensures
        !resuming ==> forall|i: int|
            0 <= i < evs.len() && ready_session(evs[i]) is Some && (forall|j: int|
                i < j < evs.len() ==> ready_session(#[trigger] evs[j]) is None) ==> sessions.last()
                == ready_state(#[trigger] evs[i]),
        (resuming || forall|i: int| 0 <= i < evs.len() ==> ready_session(#[trigger] evs[i]) is None)
            ==> sessions.last() == sessions[0],
    decreases evs.len(),
{
    if evs.len() > 0 {
        let n = evs.len() - 1;
        let s2 = sessions.drop_last();
        let e2 = evs.drop_last();
        assert forall|k: int| 0 <= k < e2.len() implies #[trigger] s2[k + 1] == session_after(s2[k], e2[k], resuming) by {
            assert(sessions[k + 1] == session_after(sessions[k], evs[k], resuming));
        }
        law_connection_keeps_last_session(s2, e2, resuming);
        assert(sessions[n + 1] == session_after(sessions[n], evs[n], resuming));
        assert(s2.last() == sessions[n]);
        if !resuming {
            assert forall|i: int|
                0 <= i < evs.len() && ready_session(evs[i]) is Some && (forall|j: int|
                    i < j < evs.len() ==> ready_session(#[trigger] evs[j]) is None) implies sessions.last()
                    == ready_state(#[trigger] evs[i]) by {
                if i < n {
                    assert(ready_session(evs[n]) is None);
                    assert(e2[i] == evs[i]);
                    assert forall|j: int| i < j < e2.len() implies ready_session(#[trigger] e2[j]) is None by {
                        assert(e2[j] == evs[j]);
                    }
                }
            }
        }
        if forall|i: int| 0 <= i < evs.len() ==> ready_session(#[trigger] evs[i]) is None {
            assert(ready_session(evs[n]) is None);
            assert forall|i: int| 0 <= i < e2.len() implies ready_session(#[trigger] e2[i]) is None by {
                assert(e2[i] == evs[i]);
            }
        }
    }
}

impl ConnectionTracker {
    /// A connection that identifies afresh.
    pub fn fresh() -> (t: Self)
        ensures
            t.sequence is None,
            t.session_id is None,
            t.resume_url is None,
            t.heartbeat_interval_ms is None,
            t.resuming is None,
    {
        ConnectionTracker {
            sequence: None,
            session_id: None,
            resume_url: None,
            heartbeat_interval_ms: None,
            resuming: None,
        }
    }

    /// A connection that resumes `session_id` from `sequence`.
    pub fn resuming(session_id: &str, sequence: u64) -> (t: Self)
        ensures
            t.sequence == Some(sequence),
            t.session_id matches Some(s) && s@ == session_id@,
            t.resume_url is None,
            t.heartbeat_interval_ms is None,
            t.resuming matches Some((s, q)) && s@ == session_id@ && q == sequence,
    {
        ConnectionTracker {
            sequence: Some(sequence),
            session_id: Some(copy_str(session_id)),
            resume_url: None,
            heartbeat_interval_ms: None,
            resuming: Some((copy_str(session_id), sequence)),
        }
    }

    /// Reads a payload: records its sequence number, turns it into an event, and says what to
    /// do. On HELLO a fresh connection identifies and a resuming one resumes; on READY a fresh
    /// connection records its session and starts heartbeating.
    pub fn on_payload(&mut self, payload: &JsonValue, token: &str, config: &DiscordConfig) -> (r: (
        GatewayEvent,
        ConnectionStep,
    ))
        ensures
            event_fits(r.0, jv(*payload)),
            final(self).sequence == sequence_after(old(self).sequence, jv(*payload)),
            final(self).resuming == old(self).resuming,
            (opt_text(final(self).session_id), opt_text(final(self).resume_url)) == session_after(
                (opt_text(old(self).session_id), opt_text(old(self).resume_url)),
                r.0,
                old(self).resuming is Some,
            ),
            match r.0 {
                GatewayEvent::Hello { heartbeat_interval } => final(self).heartbeat_interval_ms
                    == Some(heartbeat_interval) && final(self).session_id == old(self).session_id
                    && final(self).resume_url == old(self).resume_url && match old(self).resuming {
                    None => (r.1 matches ConnectionStep::Identify { payload: p, heartbeat_interval_ms: h }
                        && h == heartbeat_interval && exists|props: IdentifyProperties|
                        identify_properties_fit(props, *config) && jv(p) == identify_payload(
                        token@,
                        props,
                    )),
                    Some((s, q)) => (r.1 matches ConnectionStep::Resume { payload: p, heartbeat_interval_ms: h }
                        && h == heartbeat_interval && jv(p) == resume_payload(token@, s@, q)),
                },
                GatewayEvent::Ready(rd) => final(self).heartbeat_interval_ms
                    == old(self).heartbeat_interval_ms && if old(self).resuming is None {
                    (final(self).session_id matches Some(s) && s@ == rd.session_id@)
                        && (final(self).resume_url matches Some(u) && u@
                        == rd.resume_gateway_url@) && match old(self).heartbeat_interval_ms {
                        Some(h) => r.1 == (ConnectionStep::StartHeartbeat { interval_ms: h }),
                        None => r.1 is Forward,
                    }
                } else {
                    final(self).session_id == old(self).session_id && final(self).resume_url
                        == old(self).resume_url && r.1 is Forward
                },
                _ => final(self).heartbeat_interval_ms == old(self).heartbeat_interval_ms
                    && final(self).session_id == old(self).session_id && final(self).resume_url
                    == old(self).resume_url && r.1 is Forward,
            },
    {
        match payload.get("s") {
            Some(JsonValue::Number(JsonNumber::PosInt(s))) => {
                self.sequence = Some(*s);
            },
            _ => {},
        }
        let event = parse_gateway_payload(payload);
        let step = match &event {
            GatewayEvent::Hello { heartbeat_interval } => {
                self.heartbeat_interval_ms = Some(*heartbeat_interval);
                match &self.resuming {
                    None => ConnectionStep::Identify {
                        payload: build_identify_payload(token, config),
                        heartbeat_interval_ms: *heartbeat_interval,
                    },
                    Some((session_id, sequence)) => ConnectionStep::Resume {
                        payload: build_resume_payload(token, session_id.as_str(), *sequence),
                        heartbeat_interval_ms: *heartbeat_interval,
                    },
                }
            },
            GatewayEvent::Ready(ready) => {
                if self.resuming.is_none() {
                    self.session_id = Some(copy_str(ready.session_id.as_str()));
                    self.resume_url = Some(copy_str(ready.resume_gateway_url.as_str()));
                    match self.heartbeat_interval_ms {
                        Some(h) => ConnectionStep::StartHeartbeat { interval_ms: h },
                        None => ConnectionStep::Forward,
                    }
                } else {
                    ConnectionStep::Forward
                }
            },
            _ => ConnectionStep::Forward,
        };
        (event, step)
    }

    /// What the connection leaves behind for resuming when it ends.
    pub fn session_info(&self) -> (s: SessionInfo)
        ensures
            match (s.session_id, self.session_id) {
                (Some(a), Some(b)) => a@ == b@,
                (None, None) => true,
                _ => false,
            },
            match (s.resume_url, self.resume_url) {
                (Some(a), Some(b)) => a@ == b@,
                (None, None) => true,
                _ => false,
            },
            s.sequence == self.sequence,
    {
        SessionInfo {
            session_id: match &self.session_id {
                Some(v) => Some(copy_str(v.as_str())),
                None => None,
            },
            resume_url: match &self.resume_url {
                Some(v) => Some(copy_str(v.as_str())),
                None => None,
            },
            sequence: self.sequence,
        }
    }
}

// ---------------------------------------------------------------------------
// Reconnection
// ---------------------------------------------------------------------------

/// Keeps a gateway session going across connections: resumes when it can, identifies afresh
/// otherwise, and backs off exponentially between attempts.
#[derive(Debug)]
pub struct GatewayManager {
    token: String,
    config: DiscordConfig,
    gateway_url: String,
    session: Option<SessionInfo>,
    backoff_secs: u64,
}

/// How to open the next connection.
#[derive(Debug, Clone)]
pub enum ConnectPlan {
    /// Resume `session_id` from `sequence` at `url`.
    Resume { url: String, session_id: String, sequence: u64 },
    /// Identify afresh at `url`.
    Fresh { url: String },
}

/// Whether a session can be resumed: it has a session id and a sequence number.
pub open spec fn resumable(s: Option<SessionInfo>) -> bool {
    s matches Some(info) && info.session_id is Some && info.sequence is Some
}

impl GatewayManager {
    /// The delay before the next attempt, in seconds.
    pub closed spec fn spec_backoff(&self) -> u64 {
        self.backoff_secs
    }

    /// The session kept for resuming.
    pub closed spec fn spec_session(&self) -> Option<SessionInfo> {
        self.session
    }

    /// The address of fresh connections.
    pub closed spec fn spec_url(&self) -> Seq<char> {
        self.gateway_url@
    }

    /// The token the manager connects with.
    pub closed spec fn spec_token(&self) -> Seq<char> {
        self.token@
    }

    /// The configuration the manager identifies with.
    pub closed spec fn spec_config(&self) -> DiscordConfig {
        self.config
    }

    /// The backoff stays between the first delay and the maximum.
    pub closed spec fn wf(&self) -> bool {
        INITIAL_BACKOFF_SECS <= self.backoff_secs <= MAX_BACKOFF_SECS
    }

    /// A manager with no session, the first delay, and the Discord gateway's address.
    pub fn new(token: String, config: DiscordConfig) -> (m: Self)
        ensures
            m.wf(),
            m.spec_session() is None,
            m.spec_backoff() == INITIAL_BACKOFF_SECS,
            m.spec_url() == GATEWAY_URL@,
            m.spec_token() == token@,
            m.spec_config() == config,
    {
        GatewayManager {
            token,
            config,
            gateway_url: copy_str(GATEWAY_URL),
            session: None,
            backoff_secs: INITIAL_BACKOFF_SECS,
        }
    }

    /// The same manager with another gateway address.
    pub fn with_url(self, url: String) -> (m: Self)
        ensures
            m.spec_url() == url@,
            m.spec_session() == self.spec_session(),
            m.spec_backoff() == self.spec_backoff(),
            self.wf() ==> m.wf(),
            m.spec_token() == self.spec_token(),
            m.spec_config() == self.spec_config(),
    {
        GatewayManager { gateway_url: url, ..self }
    }

    /// What to do after a connection ends: resume when the session can be resumed, stop when
    /// nobody listens for events any more, identify afresh otherwise.
    pub fn determine_reconnect_action(&self, channel_closed: bool) -> (a: ReconnectAction)
        ensures
            a == if resumable(self.spec_session()) {
                ReconnectAction::Resume
            } else if channel_closed {
                ReconnectAction::Stop
            } else {
                ReconnectAction::Reconnect
            },
    {
        if let Some(session) = &self.session {
            if session.session_id.is_some() && session.sequence.is_some() {
                return ReconnectAction::Resume;
            }
        }
        if channel_closed {
            ReconnectAction::Stop
        } else {
            ReconnectAction::Reconnect
        }
    }

    /// How to open the next connection: resume at the session's address (or the gateway's)
    /// when the session can be resumed, connect afresh otherwise.
    pub fn connect_plan(&self) -> (p: ConnectPlan)
        ensures
            resumable(self.spec_session()) ==> (p matches ConnectPlan::Resume { url, session_id, sequence }
                && self.spec_session()->0.session_id->0@ == session_id@
                && self.spec_session()->0.sequence->0 == sequence && url@ == match self.spec_session()->0.resume_url {
                Some(u) => u@,
                None => self.spec_url(),
            }),
            !resumable(self.spec_session()) ==> (p matches ConnectPlan::Fresh { url } && url@
                == self.spec_url()),
    {
        if let Some(session) = &self.session {
            if let (Some(session_id), Some(seq)) = (&session.session_id, session.sequence) {
                let url = match &session.resume_url {
                    Some(u) => copy_str(u.as_str()),
                    None => copy_str(self.gateway_url.as_str()),
                };
                return ConnectPlan::Resume {
                    url,
                    session_id: copy_str(session_id.as_str()),
                    sequence: seq,
                };
            }
        }
        ConnectPlan::Fresh { url: copy_str(self.gateway_url.as_str()) }
    }

    /// Takes the outcome of a connection (the session it left, or `None` when it failed) and
    /// whether anybody still listens for events; gives what to do next and, unless stopping,
    /// the delay to wait first. A successful connection resets the delay; each wait doubles it
    /// up to the maximum; a fresh identify drops the session.
    pub fn after_connection(&mut self, outcome: Option<SessionInfo>, channel_closed: bool) -> (r: (
        ReconnectAction,
        u64,
    ))
        requires
            old(self).wf(),
        ensures
            final(self).wf(),
            ({
                let s = if outcome is Some {
                    outcome
                } else {
                    old(self).spec_session()
                };
                let b = if outcome is Some {
                    INITIAL_BACKOFF_SECS
                } else {
                    old(self).spec_backoff()
                };
                &&& r.0 == if resumable(s) {
                    ReconnectAction::Resume
                } else if channel_closed {
                    ReconnectAction::Stop
                } else {
                    ReconnectAction::Reconnect
                }
                &&& r.0 != ReconnectAction::Stop ==> r.1 == b && final(self).spec_backoff()
                    == next_backoff(b)
                &&& r.0 == ReconnectAction::Stop ==> final(self).spec_backoff() == b
                &&& final(self).spec_session() == if r.0 == ReconnectAction::Reconnect {
                    None
                } else {
                    s
                }
            }),
            final(self).spec_url() == old(self).spec_url(),
            final(self).spec_token() == old(self).spec_token(),
            final(self).spec_config() == old(self).spec_config(),
    {
        if let Some(info) = outcome {
            self.session = Some(info);
            self.backoff_secs = INITIAL_BACKOFF_SECS;
        }
        let action = self.determine_reconnect_action(channel_closed);
        match action {
            ReconnectAction::Resume => {},
            ReconnectAction::Reconnect => {
                self.session = None;
            },
            ReconnectAction::Stop => {
                return (action, 0);
            },
        }
        let delay = self.backoff_secs;
        self.backoff_secs = compute_backoff(self.backoff_secs);
        (action, delay)
    }

    /// The current delay before reconnecting, in seconds.
    pub fn backoff_secs(&self) -> (b: u64)
        ensures
            b == self.spec_backoff(),
    {
        self.backoff_secs
    }

    /// The session kept for resuming.
    pub fn session(&self) -> (s: Option<&SessionInfo>)
        ensures
            match s {
                Some(x) => self.spec_session() == Some(*x),
                None => self.spec_session() is None,
            },
    {
        match &self.session {
            Some(x) => Some(x),
            None => None,
        }
    }

    /// Keeps `session` for resuming.
    pub fn set_session(&mut self, session: SessionInfo)
        ensures
            final(self).spec_session() == Some(session),
            final(self).spec_backoff() == old(self).spec_backoff(),
            final(self).spec_url() == old(self).spec_url(),
            final(self).spec_token() == old(self).spec_token(),
            final(self).spec_config() == old(self).spec_config(),
            old(self).wf() ==> final(self).wf(),
    {
        self.session = Some(session);
    }

    /// Resets the delay to the first one (after a successful connection).
    pub fn reset_backoff(&mut self)
        ensures
            final(self).spec_backoff() == INITIAL_BACKOFF_SECS,
            final(self).spec_session() == old(self).spec_session(),
            final(self).spec_url() == old(self).spec_url(),
            final(self).spec_token() == old(self).spec_token(),
            final(self).spec_config() == old(self).spec_config(),
            final(self).wf(),
    {
        self.backoff_secs = INITIAL_BACKOFF_SECS;
    }

    /// The token used to connect.
    pub fn token(&self) -> (r: &String)
        ensures
            r@ == self.spec_token(),
    {
        &self.token
    }

    /// The client configuration used to identify.
    pub fn config(&self) -> (r: &DiscordConfig)
        ensures
            *r == self.spec_config(),
    {
        &self.config
    }
}

/// However many attempts fail, the delay never exceeds the maximum, and it reaches the maximum
/// after enough of them.
pub proof fn law_backoff_bounded(current: u64)
    requires
        INITIAL_BACKOFF_SECS <= current <= MAX_BACKOFF_SECS,
    ensures
        INITIAL_BACKOFF_SECS <= next_backoff(current) <= MAX_BACKOFF_SECS,
        next_backoff(current) >= current,
        current >= 16 ==> next_backoff(current) == MAX_BACKOFF_SECS,
{
}

} // verus!
