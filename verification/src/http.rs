use vstd::prelude::*;
use rand::Rng;
use crate::json::{entry, jv, text, Json, JsonValue};
use crate::text::{concat_str, copy_str, decimal, decimal_string, parse_u64};
use crate::types::HttpRequest;

verus! {

/// The base URL of the Discord REST API.
pub const DISCORD_API_BASE: &'static str = "https://discord.com/api/v10";

/// The shortest pause before a request, in milliseconds.
pub const MIN_JITTER_MS: u64 = 50;

/// The longest pause before a request, in milliseconds.
pub const MAX_JITTER_MS: u64 = 150;

// ---------------------------------------------------------------------------
// What each request sends
// ---------------------------------------------------------------------------

/// An HTTP method.
#[derive(Debug, Clone, Copy, PartialEq, Eq, Structural)]
pub enum HttpMethod {
    Get,
    Post,
    Patch,
    Delete,
}

/// "/channels/<id>".
pub open spec fn channel_path(channel_id: u64) -> Seq<char> {
    "/channels/"@ + decimal(channel_id as nat)
}

/// The method of a request.
pub open spec fn method_of(r: HttpRequest) -> HttpMethod {
    match r {
        HttpRequest::SendMessage { .. } => HttpMethod::Post,
        HttpRequest::EditMessage { .. } => HttpMethod::Patch,
        HttpRequest::DeleteMessage { .. } => HttpMethod::Delete,
        HttpRequest::FetchMessages { .. } => HttpMethod::Get,
        HttpRequest::SendTyping { .. } => HttpMethod::Post,
    }
}

/// The route a request is rate-limited under: its method and path, without message ids.
pub open spec fn route_of(r: HttpRequest) -> Seq<char> {
    match r {
        HttpRequest::SendMessage { channel_id, .. } => "POST "@ + channel_path(channel_id)
            + "/messages"@,
        HttpRequest::EditMessage { channel_id, .. } => "PATCH "@ + channel_path(channel_id)
            + "/messages"@,
        HttpRequest::DeleteMessage { channel_id, .. } => "DELETE "@ + channel_path(channel_id)
            + "/messages"@,
        HttpRequest::FetchMessages { channel_id, .. } => "GET "@ + channel_path(channel_id)
            + "/messages"@,
        HttpRequest::SendTyping { channel_id } => "POST "@ + channel_path(channel_id)
            + "/typing"@,
    }
}

/// The URL of a request.
pub open spec fn url_of(r: HttpRequest) -> Seq<char> {
    DISCORD_API_BASE@ + match r {
        HttpRequest::SendMessage { channel_id, .. } => channel_path(channel_id) + "/messages"@,
        HttpRequest::EditMessage { channel_id, message_id, .. } => channel_path(channel_id)
            + "/messages/"@ + decimal(message_id as nat),
        HttpRequest::DeleteMessage { channel_id, message_id } => channel_path(channel_id)
            + "/messages/"@ + decimal(message_id as nat),
        HttpRequest::FetchMessages { channel_id, before, limit } => channel_path(channel_id)
            + "/messages?limit="@ + decimal(limit as nat) + match before {
            Some(b) => "&before="@ + decimal(b as nat),
            None => Seq::empty(),
        },
        HttpRequest::SendTyping { channel_id } => channel_path(channel_id) + "/typing"@,
    }
}

/// The JSON body of a new message: its content and nonce, and a reference to the message it
/// answers, if any.
pub open spec fn message_json(content: Seq<char>, nonce: Seq<char>, reply_to: Option<u64>) -> Json {
    Json::Object(
        seq![("content"@, Json::Str(content)), ("nonce"@, Json::Str(nonce))] + match reply_to {
            Some(m) => seq![
                (
                    "message_reference"@,
                    Json::Object(seq![("message_id"@, Json::Str(decimal(m as nat)))]),
                ),
            ],
            None => Seq::empty(),
        },
    )
}

/// The JSON body of a request, if it has one: a new message, or the new content of an edited
/// one.
pub open spec fn body_of(r: HttpRequest) -> Option<Json> {
    match r {
        HttpRequest::SendMessage { content, nonce, reply_to, .. } => Some(
            message_json(content@, nonce@, reply_to),
        ),
        HttpRequest::EditMessage { content, .. } => Some(
            Json::Object(seq![("content"@, Json::Str(content@))]),
        ),
        _ => None,
    }
}

/// A request ready to send: method, rate-limit route, URL and JSON body.
#[derive(Debug)]
pub struct PreparedRequest {
    pub method: HttpMethod,
    pub route: String,
    pub url: String,
    pub body: Option<JsonValue>,
}

fn channel_path_string(channel_id: u64) -> (r: String)
    ensures
        r@ == channel_path(channel_id),
{
    let id = decimal_string(channel_id);
    concat_str("/channels/", id.as_str())
}

fn path_with(channel_id: u64, tail: &str) -> (r: String)
    ensures
        r@ == channel_path(channel_id) + tail@,
{
    let p = channel_path_string(channel_id);
    concat_str(p.as_str(), tail)
}

fn with_id(head: &str, id: u64) -> (r: String)
    ensures
        r@ == head@ + decimal(id as nat),
{
    let d = decimal_string(id);
    concat_str(head, d.as_str())
}

fn message_body(content: &str, nonce: &str, reply_to: Option<u64>) -> (r: JsonValue)
    ensures
        jv(r) == message_json(content@, nonce@, reply_to),
{
    let mut entries: Vec<(String, JsonValue)> = Vec::new();
    entries.push(entry("content", text(content)));
    entries.push(entry("nonce", text(nonce)));
    if let Some(m) = reply_to {
        let id = decimal_string(m);
        let mut reference: Vec<(String, JsonValue)> = Vec::new();
        reference.push(entry("message_id", text(id.as_str())));
        proof {
            crate::json::lemma_jentries_index(reference@);
            assert(crate::json::jentries(reference@) =~= seq![("message_id"@, Json::Str(decimal(m as nat)))]);
        }
        entries.push(entry("message_reference", JsonValue::Object(reference)));
    }
    proof {
        crate::json::lemma_jentries_index(entries@);
        let want = message_json(content@, nonce@, reply_to)->Object_0;
        assert(crate::json::jentries(entries@) =~= want);
    }
    JsonValue::Object(entries)
}

fn edit_body(content: &str) -> (r: JsonValue)
    ensures
        jv(r) == Json::Object(seq![("content"@, Json::Str(content@))]),
{
    let mut entries: Vec<(String, JsonValue)> = Vec::new();
    entries.push(entry("content", text(content)));
    proof {
        crate::json::lemma_jentries_index(entries@);
        assert(crate::json::jentries(entries@) =~= seq![("content"@, Json::Str(content@))]);
    }
    JsonValue::Object(entries)
}

/// The method, route, URL and body of a request.
pub fn prepare_request(req: &HttpRequest) -> (p: PreparedRequest)
    ensures
        p.method == method_of(*req),
        p.route@ == route_of(*req),
        p.url@ == url_of(*req),
        match p.body {
            Some(b) => body_of(*req) == Some(jv(b)),
            None => body_of(*req) is None,
        },
{
    match req {
        HttpRequest::SendMessage { channel_id, content, nonce, reply_to } => {
            let path = path_with(*channel_id, "/messages");
            PreparedRequest {
                method: HttpMethod::Post,
                route: concat_str("POST ", path.as_str()),
                url: concat_str(DISCORD_API_BASE, path.as_str()),
                body: Some(message_body(content.as_str(), nonce.as_str(), *reply_to)),
            }
        },
        HttpRequest::EditMessage { channel_id, message_id, content } => {
            let path = path_with(*channel_id, "/messages");
            let full = path_with(*channel_id, "/messages/");
            let full = with_id(full.as_str(), *message_id);
            PreparedRequest {
                method: HttpMethod::Patch,
                route: concat_str("PATCH ", path.as_str()),
                url: concat_str(DISCORD_API_BASE, full.as_str()),
                body: Some(edit_body(content.as_str())),
            }
        },
        HttpRequest::DeleteMessage { channel_id, message_id } => {
            let path = path_with(*channel_id, "/messages");
            let full = path_with(*channel_id, "/messages/");
            let full = with_id(full.as_str(), *message_id);
            PreparedRequest {
                method: HttpMethod::Delete,
                route: concat_str("DELETE ", path.as_str()),
                url: concat_str(DISCORD_API_BASE, full.as_str()),
                body: None,
            }
        },
        HttpRequest::FetchMessages { channel_id, before, limit } => {
            let path = path_with(*channel_id, "/messages");
            let query = path_with(*channel_id, "/messages?limit=");
            let query = with_id(query.as_str(), *limit as u64);
            let query = match before {
                Some(b) => {
                    let tail = with_id("&before=", *b);
                    concat_str(query.as_str(), tail.as_str())
                },
                None => query,
            };
            proof {
                assert(query@ =~= url_of(*req).subrange(DISCORD_API_BASE@.len() as int, url_of(*req).len() as int));
            }
            let url = concat_str(DISCORD_API_BASE, query.as_str());
            assert(url@ =~= url_of(*req));
            PreparedRequest {
                method: HttpMethod::Get,
                route: concat_str("GET ", path.as_str()),
                url,
                body: None,
            }
        },
        HttpRequest::SendTyping { channel_id } => {
            let path = path_with(*channel_id, "/typing");
            PreparedRequest {
                method: HttpMethod::Post,
                route: concat_str("POST ", path.as_str()),
                url: concat_str(DISCORD_API_BASE, path.as_str()),
                body: None,
            }
        },
    }
}

// ---------------------------------------------------------------------------
// Jitter
// ---------------------------------------------------------------------------

/// Calls `rand::thread_rng().gen_range(lo..=hi)`. Trusted: the number drawn lies between the
/// bounds, both included; which one it is rests on chance.
#[verifier::external_body]
fn random_between(lo: u64, hi: u64) -> (r: u64)
    requires
        lo <= hi,
    ensures
        lo <= r <= hi,
{
    rand::thread_rng().gen_range(lo..=hi)
}

/// A random pause to take before a request, so that requests do not come at machine-like
/// intervals: between `MIN_JITTER_MS` and `MAX_JITTER_MS` milliseconds.
pub fn request_jitter_ms() -> (r: u64)
    ensures
        MIN_JITTER_MS <= r <= MAX_JITTER_MS,
{
    random_between(MIN_JITTER_MS, MAX_JITTER_MS)
}

// ---------------------------------------------------------------------------
// Nonces
// ---------------------------------------------------------------------------

/// Discord's epoch, the start of 2015, in milliseconds since the Unix epoch.
pub const DISCORD_EPOCH_MS: u64 = 1420070400000;

/// A snowflake for the time `now_ms` (milliseconds since the Unix epoch): the milliseconds
/// since Discord's epoch (none before it) shifted left by 22 bits, with the low 22 bits of
/// `random` below them.
pub open spec fn snowflake(now_ms: u64, random: u32) -> nat {
    let elapsed: nat = if now_ms >= DISCORD_EPOCH_MS {
        (now_ms - DISCORD_EPOCH_MS) as nat
    } else {
        0
    };
    elapsed * 4194304 + (random % 4194304) as nat
}

/// The decimal text of a snowflake, as the nonce of a message.
pub fn snowflake_nonce(now_ms: u64, random: u32) -> (r: String)
    ensures
        r@ == decimal(snowflake(now_ms, random)),
{
    let elapsed: u64 = now_ms.saturating_sub(DISCORD_EPOCH_MS);
    let low: u32 = random % 4194304;
    assert((elapsed as u128) * 4194304 <= 0xffff_ffff_ffff_ffffu128 * 4194304) by (nonlinear_arith)
        requires
            elapsed <= 0xffff_ffff_ffff_ffffu64,
    ;
    let value: u128 = (elapsed as u128) * 4194304 + (low as u128);
    crate::text::decimal_string_u128(value)
}

/// Calls `rand::random::<u32>()`. Trusted for nothing: the number rests on chance.
#[verifier::external_body]
fn random_u32() -> u32 {
    rand::random::<u32>()
}

/// A fresh message nonce in Discord's snowflake format, from the clock and a random number.
pub fn generate_nonce() -> (r: String)
    ensures
        exists|now_ms: u64, random: u32| r@ == decimal(snowflake(now_ms, random)),
{
    let now = crate::science::timestamp_ms();
    let random = random_u32();
    snowflake_nonce(now, random)
}

// ---------------------------------------------------------------------------
// Rate limits
// ---------------------------------------------------------------------------

/// The rate-limit state of a route: the requests left, and when the window resets
/// (milliseconds on the caller's monotonic clock).
#[derive(Debug, Clone, Copy, PartialEq, Eq, Structural)]
pub struct RateLimitBucket {
    pub remaining: u32,
    pub reset_at_ms: u64,
}

/// The bucket of `route` among the entries: the last entry for it.
pub open spec fn bucket_for(s: Seq<(Seq<char>, RateLimitBucket)>, route: Seq<char>) -> Option<
    RateLimitBucket,
>
    decreases s.len(),
{
    if s.len() == 0 {
        None
    } else if s.last().0 == route {
        Some(s.last().1)
    } else {
        bucket_for(s.drop_last(), route)
    }
}

/// How long a request on a route must wait at `now`: until the reset when no request is left
/// and the window has not reset yet; otherwise not at all.
pub open spec fn wait_for(b: Option<RateLimitBucket>, now_ms: u64) -> u64 {
    match b {
        Some(k) => if k.remaining == 0 && now_ms < k.reset_at_ms {
            (k.reset_at_ms - now_ms) as u64
        } else {
            0
        },
        None => 0,
    }
}

/// `a + b`, or the largest `u64` when it does not fit.
pub open spec fn sat_add(a: u64, b: u64) -> u64 {
    if a + b > u64::MAX {
        u64::MAX
    } else {
        (a + b) as u64
    }
}

/// The rate-limit state of every route seen, from the headers of its last response.
#[derive(Debug)]
pub struct RateLimiter {
    buckets: Vec<(String, RateLimitBucket)>,
}

pub proof fn lemma_bucket_for_update(
    s: Seq<(Seq<char>, RateLimitBucket)>,
    i: int,
    route: Seq<char>,
    b: RateLimitBucket,
    other: Seq<char>,
)
    requires
        0 <= i < s.len(),
        s[i].0 == route,
        forall|k: int| i < k < s.len() ==> s[k].0 != route,
    ensures
        bucket_for(s.update(i, (route, b)), route) == Some(b),
        other != route ==> bucket_for(s.update(i, (route, b)), other) == bucket_for(s, other),
    decreases s.len(),
{
    let u = s.update(i, (route, b));
    if i == s.len() - 1 {
        assert(u.drop_last() =~= s.drop_last());
    } else {
        assert(u.drop_last() =~= s.drop_last().update(i, (route, b)));
        lemma_bucket_for_update(s.drop_last(), i, route, b, other);
    }
}

pub proof fn lemma_bucket_for_absent(s: Seq<(Seq<char>, RateLimitBucket)>, route: Seq<char>)
    requires
        forall|k: int| 0 <= k < s.len() ==> s[k].0 != route,
    ensures
        bucket_for(s, route) is None,
    decreases s.len(),
{
    if s.len() > 0 {
        lemma_bucket_for_absent(s.drop_last(), route);
    }
}

impl RateLimiter {
    /// The entries, route by route.
    pub closed spec fn entries(&self) -> Seq<(Seq<char>, RateLimitBucket)> {
        self.buckets@.map_values(|e: (String, RateLimitBucket)| (e.0@, e.1))
    }

    /// The bucket of a route, if a response on it gave one.
    pub open spec fn bucket(&self, route: Seq<char>) -> Option<RateLimitBucket> {
        bucket_for(self.entries(), route)
    }

    /// No route has a bucket.
    pub fn new() -> (r: Self)
        ensures
            forall|route: Seq<char>| r.bucket(route) is None,
    {
        let r = RateLimiter { buckets: Vec::new() };
        assert(r.entries() =~= Seq::<(Seq<char>, RateLimitBucket)>::empty());
        r
    }

    /// How long a request on `route` must wait at `now_ms`.
    pub fn wait_ms(&self, route: &str, now_ms: u64) -> (r: u64)
        ensures
            r == wait_for(self.bucket(route@), now_ms),
    {
        match self.find(route) {
            Some(i) => {
                let b = self.buckets[i].1;
                if b.remaining == 0 && now_ms < b.reset_at_ms {
                    b.reset_at_ms - now_ms
                } else {
                    0
                }
            },
            None => 0,
        }
    }

    /// The index of the last entry for `route`.
    fn find(&self, route: &str) -> (r: Option<usize>)
        ensures
            match r {
                Some(i) => i < self.entries().len() && self.entries()[i as int].0 == route@
                    && (forall|k: int|
                    i < k < self.entries().len() ==> self.entries()[k].0 != route@)
                    && self.bucket(route@) == Some(self.buckets@[i as int].1),
                None => forall|k: int|
                    0 <= k < self.entries().len() ==> self.entries()[k].0 != route@,
            },
            r is None ==> self.bucket(route@) is None,
    {
        let mut j: usize = self.buckets.len();
        while j > 0
            invariant
                j <= self.buckets@.len(),
                self.entries().len() == self.buckets@.len(),
                forall|k: int| j <= k < self.entries().len() ==> self.entries()[k].0 != route@,
            decreases j,
        {
            if crate::text::str_eq(self.buckets[j - 1].0.as_str(), route) {
                let i = j - 1;
                proof {
                    let s = self.entries();
                    let b = self.buckets@[i as int].1;
                    assert(s[i as int] == (route@, b));
                    assert(s.update(i as int, (route@, b)) =~= s);
                    lemma_bucket_for_update(s, i as int, route@, b, route@);
                }
                return Some(i);
            }
            j = j - 1;
        }
        proof {
            lemma_bucket_for_absent(self.entries(), route@);
        }
        None
    }

    /// Records the state a response on `route` reported at `now_ms`: when it gave both the
    /// requests left and the time until the reset, the route's bucket becomes those; otherwise
    /// nothing changes. Other routes keep their buckets.
    pub fn update(
        &mut self,
        route: &str,
        remaining: Option<u32>,
        reset_after_ms: Option<u64>,
        now_ms: u64,
    )
        ensures
            match (remaining, reset_after_ms) {
                (Some(left), Some(after)) => {
                    &&& final(self).bucket(route@) == Some(
                        RateLimitBucket { remaining: left, reset_at_ms: sat_add(now_ms, after) },
                    )
                    &&& forall|other: Seq<char>|
                        other != route@ ==> #[trigger] final(self).bucket(other) == old(
                            self,
                        ).bucket(other)
                },
                _ => *final(self) == *old(self),
            },
    {
        if let (Some(left), Some(after)) = (remaining, reset_after_ms) {
            let b = RateLimitBucket { remaining: left, reset_at_ms: now_ms.saturating_add(after) };
            let ghost s = self.entries();
            match self.find(route) {
                Some(i) => {
                    self.buckets.set(i, (copy_str(route), b));
                    proof {
                        assert(self.entries() =~= s.update(i as int, (route@, b)));
                        assert forall|other: Seq<char>| other != route@ implies #[trigger] self.bucket(
                            other,
                        ) == bucket_for(s, other) by {
                            lemma_bucket_for_update(s, i as int, route@, b, other);
                        }
                        lemma_bucket_for_update(s, i as int, route@, b, route@);
                    }
                },
                None => {
                    self.buckets.push((copy_str(route), b));
                    proof {
                        assert(self.entries() =~= s.push((route@, b)));
                        assert forall|other: Seq<char>| other != route@ implies #[trigger] self.bucket(
                            other,
                        ) == bucket_for(s, other) by {
                            assert(self.entries().drop_last() =~= s);
                        }
                    }
                },
            }
        }
    }
}

/// Reads the `X-RateLimit-Remaining` header value: a decimal number that fits in 32 bits.
pub fn parse_rate_remaining(value: &str) -> (r: Option<u32>)
    ensures
        r == match crate::text::parse_u64_spec(value@) {
            Some(v) => if v <= u32::MAX {
                Some(v as u32)
            } else {
                None
            },
            None => None,
        },
{
    let chars = crate::text::chars_of(value);
    match parse_u64(chars.as_slice()) {
        Some(v) => if v <= u32::MAX as u64 {
            Some(v as u32)
        } else {
            None
        },
        None => None,
    }
}

/// After a limited response, a request on the same route waits until the reset; once the
/// window has reset it waits no more. Other routes are not held back.
pub proof fn law_exhausted_route_waits(
    before: RateLimiter,
    after: RateLimiter,
    route: Seq<char>,
    other: Seq<char>,
    reset_after_ms: u64,
    now_ms: u64,
    later_ms: u64,
)
    requires
        after.bucket(route) == Some(
            RateLimitBucket { remaining: 0, reset_at_ms: sat_add(now_ms, reset_after_ms) },
        ),
        other != route ==> after.bucket(other) == before.bucket(other),
        reset_after_ms > 0,
        now_ms < u64::MAX,
    ensures
        wait_for(after.bucket(route), now_ms) > 0,
        later_ms >= sat_add(now_ms, reset_after_ms) ==> wait_for(after.bucket(route), later_ms)
            == 0,
        other != route ==> wait_for(after.bucket(other), now_ms) == wait_for(
            before.bucket(other),
            now_ms,
        ),
{
}

/// A route waits only when its bucket is spent: a bucket with a request left never waits,
/// a window that has reset never waits, and a spent bucket waits exactly until its reset.
pub proof fn law_wait_only_when_spent(b: RateLimitBucket, now_ms: u64)
    ensures
        b.remaining > 0 ==> wait_for(Some(b), now_ms) == 0,
        now_ms >= b.reset_at_ms ==> wait_for(Some(b), now_ms) == 0,
        b.remaining == 0 && now_ms < b.reset_at_ms ==> now_ms + wait_for(Some(b), now_ms)
            == b.reset_at_ms,
        wait_for(None, now_ms) == 0,
{
}

} // verus!
