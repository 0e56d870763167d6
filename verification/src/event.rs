use vstd::prelude::*;
use crate::json::{
    array_of, as_array, as_bool, as_i64, as_str, as_u64, at, bool_of, deep_copy, entry_value,
    i64_of, id_from, id_of, jo, jv, jvs, lemma_jentries_index, lemma_jvs_index, lemma_jvs_last,
    member, string_of, text_of, u64_of, Json, JsonValue,
};
use crate::text::str_eq;

verus! {

/// Gateway events in user-account format, read from the raw JSON payloads.
#[derive(Debug)]
pub enum GatewayEvent {
    Hello { heartbeat_interval: u64 },
    Ready(Box<ReadyEvent>),
    Resumed,
    InvalidSession { resumable: bool },
    Reconnect,
    HeartbeatAck,
    MessageCreate(Box<MessageCreateEvent>),
    MessageUpdate(Box<MessageUpdateEvent>),
    MessageDelete { id: u64, channel_id: u64 },
    GuildCreate(Box<GuildCreateEvent>),
    GuildDelete { id: u64 },
    ChannelCreate(Box<ChannelEvent>),
    ChannelUpdate(Box<ChannelEvent>),
    ChannelDelete(Box<ChannelEvent>),
    TypingStart { channel_id: u64, user_id: u64, timestamp: u64 },
    /// Events not handled yet.
    Unknown { op: u8, event_name: Option<String> },
}

/// The user-account READY event; it holds fields that a bot's READY lacks.
#[derive(Debug)]
pub struct ReadyEvent {
    pub session_id: String,
    pub resume_gateway_url: String,
    pub guilds: Vec<JsonValue>,
    pub private_channels: Vec<JsonValue>,
    pub read_state: Vec<JsonValue>,
    pub relationships: Vec<JsonValue>,
    pub user: JsonValue,
}

/// A message was created.
#[derive(Debug)]
pub struct MessageCreateEvent {
    pub id: u64,
    pub channel_id: u64,
    pub author_id: u64,
    pub author_name: String,
    pub content: String,
    pub timestamp: String,
    pub mention_everyone: bool,
    pub mentions: Vec<u64>,
    pub raw: JsonValue,
}

/// A message was edited.
#[derive(Debug)]
pub struct MessageUpdateEvent {
    pub id: u64,
    pub channel_id: u64,
    pub content: Option<String>,
    pub edited_timestamp: Option<String>,
    pub raw: JsonValue,
}

/// A guild became available.
#[derive(Debug)]
pub struct GuildCreateEvent {
    pub id: u64,
    pub name: String,
    pub channels: Vec<JsonValue>,
    pub roles: Vec<JsonValue>,
    pub raw: JsonValue,
}

/// A channel was created, updated or deleted.
#[derive(Debug)]
pub struct ChannelEvent {
    pub id: u64,
    pub guild_id: Option<u64>,
    pub name: String,
    pub kind: u8,
    pub position: i32,
    pub raw: JsonValue,
}

/// The model of an optional text.
pub open spec fn opt_text(o: Option<String>) -> Option<Seq<char>> {
    match o {
        Some(s) => Some(s@),
        None => None,
    }
}

/// An optional value, or a default.
pub open spec fn or_u64(o: Option<u64>, d: u64) -> u64 {
    match o {
        Some(v) => v,
        None => d,
    }
}

/// A text member, or the empty text.
pub open spec fn text_or_empty(j: Json, key: Seq<char>) -> Seq<char> {
    match as_str(member(j, key)) {
        Some(s) => s,
        None => Seq::empty(),
    }
}

/// Whether `e` is the catch-all event with the given opcode and name.
pub open spec fn unknown_is(e: GatewayEvent, op: u8, name: Option<Seq<char>>) -> bool {
    e matches GatewayEvent::Unknown { op: o, event_name: n } && o == op && opt_text(n) == name
}

// ---------------------------------------------------------------------------
// READY, read as a struct: from an object by field name, or from an array by position
// ---------------------------------------------------------------------------

/// The model of READY's data.
pub struct ReadyView {
    pub session_id: Seq<char>,
    pub resume_gateway_url: Seq<char>,
    pub guilds: Seq<Json>,
    pub private_channels: Seq<Json>,
    pub read_state: Seq<Json>,
    pub relationships: Seq<Json>,
    pub user: Json,
}

/// A text field that defaults to empty: `None` when present but not a text.
pub open spec fn text_field(v: Option<Json>) -> Option<Seq<char>> {
    match v {
        None => Some(Seq::empty()),
        Some(Json::Str(s)) => Some(s),
        Some(_) => None,
    }
}

/// A list field that defaults to empty: `None` when present but not an array.
pub open spec fn list_field(v: Option<Json>) -> Option<Seq<Json>> {
    match v {
        None => Some(Seq::empty()),
        Some(Json::Array(items)) => Some(items),
        Some(_) => None,
    }
}

/// READY's data read as a struct: an object needs a text `session_id` and a `user`; the other
/// fields may be missing but must have their type when present. An array gives the seven
/// fields by position.
pub open spec fn ready_of(d: Json) -> Option<ReadyView> {
    match d {
        Json::Object(es) => {
            let sid = entry_value(es, "session_id"@);
            let url = text_field(entry_value(es, "resume_gateway_url"@));
            let guilds = list_field(entry_value(es, "guilds"@));
            let dms = list_field(entry_value(es, "private_channels"@));
            let reads = list_field(entry_value(es, "read_state"@));
            let rels = list_field(entry_value(es, "relationships"@));
            let user = entry_value(es, "user"@);
            if sid matches Some(Json::Str(s)) && url is Some && guilds is Some && dms is Some
                && reads is Some && rels is Some && user is Some {
                Some(
                    ReadyView {
                        session_id: sid->0->Str_0,
                        resume_gateway_url: url->0,
                        guilds: guilds->0,
                        private_channels: dms->0,
                        read_state: reads->0,
                        relationships: rels->0,
                        user: user->0,
                    },
                )
            } else {
                None
            }
        },
        Json::Array(items) => {
            if items.len() == 7 && items[0] is Str && items[1] is Str && items[2] is Array
                && items[3] is Array && items[4] is Array && items[5] is Array {
                Some(
                    ReadyView {
                        session_id: items[0]->Str_0,
                        resume_gateway_url: items[1]->Str_0,
                        guilds: items[2]->Array_0,
                        private_channels: items[3]->Array_0,
                        read_state: items[4]->Array_0,
                        relationships: items[5]->Array_0,
                        user: items[6],
                    },
                )
            } else {
                None
            }
        },
        _ => None,
    }
}

/// Whether a READY event holds what its model says.
pub open spec fn ready_fits(r: ReadyEvent, v: ReadyView) -> bool {
    &&& r.session_id@ == v.session_id
    &&& r.resume_gateway_url@ == v.resume_gateway_url
    &&& jvs(r.guilds@) == v.guilds
    &&& jvs(r.private_channels@) == v.private_channels
    &&& jvs(r.read_state@) == v.read_state
    &&& jvs(r.relationships@) == v.relationships
    &&& jv(r.user) == v.user
}

/// Copies of a sequence of JSON values.
pub fn copy_values(v: &Vec<JsonValue>) -> (r: Vec<JsonValue>)
    ensures
        jvs(r@) == jvs(v@),
{
    let mut out: Vec<JsonValue> = Vec::new();
    let mut i: usize = 0;
    while i < v.len()
        invariant
            i <= v@.len(),
            jvs(out@) == jvs(v@.subrange(0, i as int)),
        decreases v@.len() - i,
    {
        let x = deep_copy(&v[i]);
        proof {
            lemma_jvs_last(out@.push(x));
            lemma_jvs_last(v@.subrange(0, i + 1));
            assert(out@.push(x).drop_last() =~= out@);
            assert(v@.subrange(0, i + 1).drop_last() =~= v@.subrange(0, i as int));
        }
        out.push(x);
        i = i + 1;
    }
    assert(v@.subrange(0, v@.len() as int) =~= v@);
    out
}

/// A list field read from an optional value: empty when missing, `None` when not an array.
fn list_from(v: Option<&JsonValue>) -> (r: Option<Vec<JsonValue>>)
    ensures
        match r {
            Some(items) => list_field(
                match v {
                    Some(x) => Some(jv(*x)),
                    None => None,
                },
            ) == Some(jvs(items@)),
            None => list_field(
                match v {
                    Some(x) => Some(jv(*x)),
                    None => None,
                },
            ) is None,
        },
{
    match v {
        None => Some(Vec::new()),
        Some(JsonValue::Array(items)) => Some(copy_values(items)),
        Some(_) => None,
    }
}

/// The entry of an object with `key`, if any.
fn entry<'a>(entries: &'a Vec<(String, JsonValue)>, key: &str) -> (r: Option<&'a JsonValue>)
    ensures
        match r {
            Some(x) => entry_value(crate::json::jentries(entries@), key@) == Some(jv(*x)),
            None => entry_value(crate::json::jentries(entries@), key@) is None,
        },
{
    proof {
        lemma_jentries_index(entries@);
    }
    let ghost es = crate::json::jentries(entries@);
    assert(es.subrange(0, es.len() as int) =~= es);
    let mut i: usize = 0;
    while i < entries.len()
        invariant
            es == crate::json::jentries(entries@),
            es.len() == entries@.len(),
            forall|k: int|
                0 <= k < entries@.len() ==> #[trigger] es[k] == (entries@[k].0@, jv(entries@[k].1)),
            i <= entries@.len(),
            entry_value(es, key@) == entry_value(es.subrange(i as int, es.len() as int), key@),
        decreases entries@.len() - i,
    {
        let ghost rest = es.subrange(i as int, es.len() as int);
        assert(rest[0] == es[i as int]);
        if str_eq(entries[i].0.as_str(), key) {
            return Some(&entries[i].1);
        }
        assert(rest.subrange(1, rest.len() as int) =~= es.subrange(i + 1, es.len() as int));
        i = i + 1;
    }
    None
}

/// Reads READY's data as a struct.
fn parse_ready(data: Option<&JsonValue>) -> (r: Option<ReadyEvent>)
    ensures
        match r {
            Some(ev) => ready_of(jo(data)) matches Some(v) && ready_fits(ev, v),
            None => ready_of(jo(data)) is None,
        },
{
    match data {
        Some(JsonValue::Object(entries)) => {
            let session_id = match entry(entries, "session_id") {
                Some(JsonValue::String(s)) => String::from_str(s.as_str()),
                _ => {
                    return None;
                },
            };
            let resume_gateway_url = match entry(entries, "resume_gateway_url") {
                None => String::new(),
                Some(JsonValue::String(s)) => String::from_str(s.as_str()),
                Some(_) => {
                    return None;
                },
            };
            let guilds = match list_from(entry(entries, "guilds")) {
                Some(v) => v,
                None => {
                    return None;
                },
            };
            let private_channels = match list_from(entry(entries, "private_channels")) {
                Some(v) => v,
                None => {
                    return None;
                },
            };
            let read_state = match list_from(entry(entries, "read_state")) {
                Some(v) => v,
                None => {
                    return None;
                },
            };
            let relationships = match list_from(entry(entries, "relationships")) {
                Some(v) => v,
                None => {
                    return None;
                },
            };
            let user = match entry(entries, "user") {
                Some(u) => deep_copy(u),
                None => {
                    return None;
                },
            };
            Some(
                ReadyEvent {
                    session_id,
                    resume_gateway_url,
                    guilds,
                    private_channels,
                    read_state,
                    relationships,
                    user,
                },
            )
        },
        Some(JsonValue::Array(items)) => {
            proof {
                lemma_jvs_index(items@);
            }
            if items.len() != 7 {
                return None;
            }
            let session_id = match &items[0] {
                JsonValue::String(s) => String::from_str(s.as_str()),
                _ => {
                    return None;
                },
            };
            let resume_gateway_url = match &items[1] {
                JsonValue::String(s) => String::from_str(s.as_str()),
                _ => {
                    return None;
                },
            };
            let guilds = match &items[2] {
                JsonValue::Array(v) => copy_values(v),
                _ => {
                    return None;
                },
            };
            let private_channels = match &items[3] {
                JsonValue::Array(v) => copy_values(v),
                _ => {
                    return None;
                },
            };
            let read_state = match &items[4] {
                JsonValue::Array(v) => copy_values(v),
                _ => {
                    return None;
                },
            };
            let relationships = match &items[5] {
                JsonValue::Array(v) => copy_values(v),
                _ => {
                    return None;
                },
            };
            let user = deep_copy(&items[6]);
            Some(
                ReadyEvent {
                    session_id,
                    resume_gateway_url,
                    guilds,
                    private_channels,
                    read_state,
                    relationships,
                    user,
                },
            )
        },
        _ => None,
    }
}

// ---------------------------------------------------------------------------
// The other dispatch events
// ---------------------------------------------------------------------------

/// The mentioned users: the non-zero ids of the items of an array of users.
pub open spec fn mention_ids(items: Seq<Json>) -> Seq<u64>
    decreases items.len(),
{
    if items.len() == 0 {
        Seq::empty()
    } else {
        let rest = mention_ids(items.drop_last());
        match id_of(member(items.last(), "id"@)) {
            Some(v) => if v > 0 {
                rest.push(v)
            } else {
                rest
            },
            None => rest,
        }
    }
}

/// The mentioned users of a message's data.
pub open spec fn mentions_of(d: Json) -> Seq<u64> {
    match as_array(member(d, "mentions"@)) {
        Some(items) => mention_ids(items),
        None => Seq::empty(),
    }
}

/// Whether `e` is what MESSAGE_CREATE data gives.
pub open spec fn message_create_fits(e: GatewayEvent, d: Json) -> bool {
    let id = id_of(member(d, "id"@));
    let ch = id_of(member(d, "channel_id"@));
    let author = id_of(member(member(d, "author"@), "id"@));
    if id is Some && ch is Some && author is Some {
        e matches GatewayEvent::MessageCreate(m) && m.id == id->0 && m.channel_id == ch->0
            && m.author_id == author->0 && m.author_name@ == (match as_str(
            member(member(d, "author"@), "username"@),
        ) {
            Some(s) => s,
            None => "Unknown"@,
        }) && m.content@ == text_or_empty(d, "content"@) && m.timestamp@ == text_or_empty(
            d,
            "timestamp"@,
        ) && m.mention_everyone == (match as_bool(member(d, "mention_everyone"@)) {
            Some(b) => b,
            None => false,
        }) && m.mentions@ == mentions_of(d) && jv(m.raw) == d
    } else {
        unknown_is(e, 0, Some("MESSAGE_CREATE"@))
    }
}

/// The non-zero ids of the users in an array.
pub fn parse_mentions(items: &Vec<JsonValue>) -> (r: Vec<u64>)
    ensures
        r@ == mention_ids(jvs(items@)),
{
    proof {
        lemma_jvs_index(items@);
    }
    let mut out: Vec<u64> = Vec::new();
    let mut i: usize = 0;
    while i < items.len()
        invariant
            i <= items@.len(),
            jvs(items@).len() == items@.len(),
            forall|k: int| 0 <= k < items@.len() ==> #[trigger] jvs(items@)[k] == jv(items@[k]),
            out@ == mention_ids(jvs(items@).subrange(0, i as int)),
        decreases items@.len() - i,
    {
        let ghost pre = jvs(items@).subrange(0, i + 1);
        assert(pre.drop_last() =~= jvs(items@).subrange(0, i as int));
        assert(pre.last() == jv(items@[i as int]));
        let id = id_from((&items[i]).get("id"));
        match id {
            Some(v) => {
                if v > 0 {
                    out.push(v);
                }
            },
            None => {},
        }
        i = i + 1;
    }
    assert(jvs(items@).subrange(0, items@.len() as int) =~= jvs(items@));
    out
}

fn parse_message_create(data: Option<&JsonValue>) -> (r: GatewayEvent)
    ensures
        message_create_fits(r, jo(data)),
{
    let id = id_from(at(data, "id"));
    let channel_id = id_from(at(data, "channel_id"));
    let author = at(data, "author");
    let author_id = id_from(at(author, "id"));
    let author_name = match text_of(at(author, "username")) {
        Some(s) => String::from_str(s),
        None => String::from_str("Unknown"),
    };
    let content = match string_of(at(data, "content")) {
        Some(s) => s,
        None => String::new(),
    };
    let timestamp = match string_of(at(data, "timestamp")) {
        Some(s) => s,
        None => String::new(),
    };
    let mention_everyone = match bool_of(at(data, "mention_everyone")) {
        Some(b) => b,
        None => false,
    };
    let mentions = match array_of(at(data, "mentions")) {
        Some(items) => parse_mentions(items),
        None => Vec::new(),
    };
    match (id, channel_id, author_id) {
        (Some(id), Some(channel_id), Some(author_id)) => {
            let raw = match data {
                Some(d) => deep_copy(d),
                None => JsonValue::Null,
            };
            GatewayEvent::MessageCreate(
                Box::new(
                    MessageCreateEvent {
                        id,
                        channel_id,
                        author_id,
                        author_name,
                        content,
                        timestamp,
                        mention_everyone,
                        mentions,
                        raw,
                    },
                ),
            )
        },
        _ => GatewayEvent::Unknown {
            op: 0,
            event_name: Some(String::from_str("MESSAGE_CREATE")),
        },
    }
}

/// Whether `e` is what MESSAGE_UPDATE data gives.
pub open spec fn message_update_fits(e: GatewayEvent, d: Json) -> bool {
    let id = id_of(member(d, "id"@));
    let ch = id_of(member(d, "channel_id"@));
    if id is Some && ch is Some {
        e matches GatewayEvent::MessageUpdate(m) && m.id == id->0 && m.channel_id == ch->0
            && opt_text(m.content) == as_str(member(d, "content"@)) && opt_text(
            m.edited_timestamp,
        ) == as_str(member(d, "edited_timestamp"@)) && jv(m.raw) == d
    } else {
        unknown_is(e, 0, Some("MESSAGE_UPDATE"@))
    }
}

fn parse_message_update(data: Option<&JsonValue>) -> (r: GatewayEvent)
    ensures
        message_update_fits(r, jo(data)),
{
    let id = id_from(at(data, "id"));
    let channel_id = id_from(at(data, "channel_id"));
    match (id, channel_id) {
        (Some(id), Some(channel_id)) => {
            let raw = match data {
                Some(d) => deep_copy(d),
                None => JsonValue::Null,
            };
            GatewayEvent::MessageUpdate(
                Box::new(
                    MessageUpdateEvent {
                        id,
                        channel_id,
                        content: string_of(at(data, "content")),
                        edited_timestamp: string_of(at(data, "edited_timestamp")),
                        raw,
                    },
                ),
            )
        },
        _ => GatewayEvent::Unknown {
            op: 0,
            event_name: Some(String::from_str("MESSAGE_UPDATE")),
        },
    }
}

/// The items of an array member, or none.
pub open spec fn items_or_empty(d: Json, key: Seq<char>) -> Seq<Json> {
    match as_array(member(d, key)) {
        Some(items) => items,
        None => Seq::empty(),
    }
}

/// Whether `e` is what GUILD_CREATE data gives.
pub open spec fn guild_create_fits(e: GatewayEvent, d: Json) -> bool {
    match id_of(member(d, "id"@)) {
        Some(id) => e matches GatewayEvent::GuildCreate(g) && g.id == id && g.name@
            == text_or_empty(d, "name"@) && jvs(g.channels@) == items_or_empty(d, "channels"@)
            && jvs(g.roles@) == items_or_empty(d, "roles"@) && jv(g.raw) == d,
        None => unknown_is(e, 0, Some("GUILD_CREATE"@)),
    }
}

fn items_copy(v: Option<&JsonValue>) -> (r: Vec<JsonValue>)
    ensures
        jvs(r@) == match as_array(jo(v)) {
            Some(items) => items,
            None => Seq::<Json>::empty(),
        },
{
    match array_of(v) {
        Some(items) => copy_values(items),
        None => Vec::new(),
    }
}

fn parse_guild_create(data: Option<&JsonValue>) -> (r: GatewayEvent)
    ensures
        guild_create_fits(r, jo(data)),
{
    let id = id_from(at(data, "id"));
    let name = match string_of(at(data, "name")) {
        Some(s) => s,
        None => String::new(),
    };
    match id {
        Some(id) => {
            let channels = items_copy(at(data, "channels"));
            let roles = items_copy(at(data, "roles"));
            let raw = match data {
                Some(d) => deep_copy(d),
                None => JsonValue::Null,
            };
            GatewayEvent::GuildCreate(Box::new(GuildCreateEvent { id, name, channels, roles, raw }))
        },
        None => GatewayEvent::Unknown { op: 0, event_name: Some(String::from_str("GUILD_CREATE")) },
    }
}

/// Whether `c` is what channel event data gives: it needs a non-zero id.
pub open spec fn channel_fits(c: ChannelEvent, d: Json) -> bool {
    &&& id_of(member(d, "id"@)) == Some(c.id)
    &&& c.id > 0
    &&& c.guild_id == id_of(member(d, "guild_id"@))
    &&& c.name@ == text_or_empty(d, "name"@)
    &&& c.kind == (or_u64(as_u64(member(d, "type"@)), 0) as u8)
    &&& c.position == (match as_i64(member(d, "position"@)) {
        Some(p) => p,
        None => 0,
    }) as i32
    &&& jv(c.raw) == d
}

/// Reads channel event data; `None` unless it has a non-zero id.
fn parse_channel_event(data: Option<&JsonValue>) -> (r: Option<ChannelEvent>)
    ensures
        match r {
            Some(c) => channel_fits(c, jo(data)),
            None => !(id_of(member(jo(data), "id"@)) matches Some(v) && v > 0),
        },
{
    let id = match id_from(at(data, "id")) {
        Some(v) => {
            if v > 0 {
                v
            } else {
                return None;
            }
        },
        None => {
            return None;
        },
    };
    let guild_id = id_from(at(data, "guild_id"));
    let name = match string_of(at(data, "name")) {
        Some(s) => s,
        None => String::new(),
    };
    let kind_raw = match u64_of(at(data, "type")) {
        Some(k) => k,
        None => 0,
    };
    let position_raw = match i64_of(at(data, "position")) {
        Some(p) => p,
        None => 0,
    };
    let raw = match data {
        Some(d) => deep_copy(d),
        None => JsonValue::Null,
    };
    Some(
        ChannelEvent {
            id,
            guild_id,
            name,
            kind: kind_raw as u8,
            position: position_raw as i32,
            raw,
        },
    )
}

/// Whether `e` is what a channel event named `name` gives for data `d`.
pub open spec fn channel_event_fits(e: GatewayEvent, name: Seq<char>, d: Json) -> bool {
    if id_of(member(d, "id"@)) matches Some(v) && v > 0 {
        if name == "CHANNEL_CREATE"@ {
            e matches GatewayEvent::ChannelCreate(c) && channel_fits(*c, d)
        } else if name == "CHANNEL_UPDATE"@ {
            e matches GatewayEvent::ChannelUpdate(c) && channel_fits(*c, d)
        } else {
            e matches GatewayEvent::ChannelDelete(c) && channel_fits(*c, d)
        }
    } else {
        unknown_is(e, 0, Some(name))
    }
}

/// Whether `e` is what a dispatch (opcode 0) named `name` with data `d` gives.
pub open spec fn dispatch_fits(e: GatewayEvent, name: Option<Seq<char>>, d: Json) -> bool {
    match name {
        Some(n) => if n == "READY"@ {
            match ready_of(d) {
                Some(v) => e matches GatewayEvent::Ready(r) && ready_fits(*r, v),
                None => unknown_is(e, 0, Some("READY"@)),
            }
        } else if n == "RESUMED"@ {
            e is Resumed
        } else if n == "MESSAGE_CREATE"@ {
            message_create_fits(e, d)
        } else if n == "MESSAGE_UPDATE"@ {
            message_update_fits(e, d)
        } else if n == "MESSAGE_DELETE"@ {
            match (id_of(member(d, "id"@)), id_of(member(d, "channel_id"@))) {
                (Some(id), Some(ch)) => e == GatewayEvent::MessageDelete { id, channel_id: ch },
                _ => unknown_is(e, 0, Some("MESSAGE_DELETE"@)),
            }
        } else if n == "GUILD_CREATE"@ {
            guild_create_fits(e, d)
        } else if n == "GUILD_DELETE"@ {
            match id_of(member(d, "id"@)) {
                Some(id) => e == GatewayEvent::GuildDelete { id },
                None => unknown_is(e, 0, Some("GUILD_DELETE"@)),
            }
        } else if n == "CHANNEL_CREATE"@ || n == "CHANNEL_UPDATE"@ || n == "CHANNEL_DELETE"@ {
            channel_event_fits(e, n, d)
        } else if n == "TYPING_START"@ {
            let ch = or_u64(id_of(member(d, "channel_id"@)), 0);
            let user = or_u64(id_of(member(d, "user_id"@)), 0);
            let ts = or_u64(as_u64(member(d, "timestamp"@)), 0);
            if ch > 0 && user > 0 {
                e == GatewayEvent::TypingStart { channel_id: ch, user_id: user, timestamp: ts }
            } else {
                unknown_is(e, 0, Some("TYPING_START"@))
            }
        } else {
            unknown_is(e, 0, Some(n))
        },
        None => unknown_is(e, 0, None),
    }
}

fn unknown(op: u8, name: &str) -> (r: GatewayEvent)
    ensures
        unknown_is(r, op, Some(name@)),
{
    GatewayEvent::Unknown { op, event_name: Some(String::from_str(name)) }
}

fn parse_dispatch_event(event_name: Option<&str>, data: Option<&JsonValue>) -> (r: GatewayEvent)
    ensures
        dispatch_fits(
            r,
            match event_name {
                Some(n) => Some(n@),
                None => None,
            },
            jo(data),
        ),
{
    let name = match event_name {
        Some(n) => n,
        None => {
            return GatewayEvent::Unknown { op: 0, event_name: None };
        },
    };
    if str_eq(name, "READY") {
        return match parse_ready(data) {
            Some(ready) => GatewayEvent::Ready(Box::new(ready)),
            None => unknown(0, "READY"),
        };
    }
    if str_eq(name, "RESUMED") {
        return GatewayEvent::Resumed;
    }
    if str_eq(name, "MESSAGE_CREATE") {
        return parse_message_create(data);
    }
    if str_eq(name, "MESSAGE_UPDATE") {
        return parse_message_update(data);
    }
    if str_eq(name, "MESSAGE_DELETE") {
        let id = id_from(at(data, "id"));
        let channel_id = id_from(at(data, "channel_id"));
        return match (id, channel_id) {
            (Some(id), Some(channel_id)) => GatewayEvent::MessageDelete { id, channel_id },
            _ => unknown(0, "MESSAGE_DELETE"),
        };
    }
    if str_eq(name, "GUILD_CREATE") {
        return parse_guild_create(data);
    }
    if str_eq(name, "GUILD_DELETE") {
        return match id_from(at(data, "id")) {
            Some(id) => GatewayEvent::GuildDelete { id },
            None => unknown(0, "GUILD_DELETE"),
        };
    }
    if str_eq(name, "CHANNEL_CREATE") {
        return match parse_channel_event(data) {
            Some(ch) => GatewayEvent::ChannelCreate(Box::new(ch)),
            None => unknown(0, "CHANNEL_CREATE"),
        };
    }
    if str_eq(name, "CHANNEL_UPDATE") {
        return match parse_channel_event(data) {
            Some(ch) => GatewayEvent::ChannelUpdate(Box::new(ch)),
            None => unknown(0, "CHANNEL_UPDATE"),
        };
    }
    if str_eq(name, "CHANNEL_DELETE") {
        return match parse_channel_event(data) {
            Some(ch) => GatewayEvent::ChannelDelete(Box::new(ch)),
            None => unknown(0, "CHANNEL_DELETE"),
        };
    }
    if str_eq(name, "TYPING_START") {
        let channel_id = match id_from(at(data, "channel_id")) {
            Some(v) => v,
            None => 0,
        };
        let user_id = match id_from(at(data, "user_id")) {
            Some(v) => v,
            None => 0,
        };
        let timestamp = match u64_of(at(data, "timestamp")) {
            Some(v) => v,
            None => 0,
        };
        return if channel_id > 0 && user_id > 0 {
            GatewayEvent::TypingStart { channel_id, user_id, timestamp }
        } else {
            unknown(0, "TYPING_START")
        };
    }
    GatewayEvent::Unknown { op: 0, event_name: Some(String::from_str(name)) }
}

/// The opcode of a payload: its `op` number, 0 when missing, cut to its low byte.
pub open spec fn op_of(p: Json) -> u8 {
    or_u64(as_u64(member(p, "op"@)), 0) as u8
}

/// Whether `e` is the event that a gateway payload gives.
pub open spec fn event_fits(e: GatewayEvent, p: Json) -> bool {
    let op = op_of(p);
    let name = as_str(member(p, "t"@));
    let d = member(p, "d"@);
    if op == 10 {
        e == GatewayEvent::Hello {
            heartbeat_interval: or_u64(as_u64(member(d, "heartbeat_interval"@)), 41250),
        }
    } else if op == 11 {
        e is HeartbeatAck
    } else if op == 7 {
        e is Reconnect
    } else if op == 9 {
        e == GatewayEvent::InvalidSession {
            resumable: match as_bool(d) {
                Some(b) => b,
                None => false,
            },
        }
    } else if op == 0 {
        dispatch_fits(e, name, d)
    } else {
        unknown_is(e, op, name)
    }
}

/// Reads a raw gateway payload into an event.
pub fn parse_gateway_payload(payload: &JsonValue) -> (r: GatewayEvent)
    ensures
        event_fits(r, jv(*payload)),
{
    let op_raw = match payload.get("op") {
        Some(JsonValue::Number(crate::json::JsonNumber::PosInt(n))) => *n,
        _ => 0,
    };
    let op = op_raw as u8;
    let event_name = text_of(payload.get("t"));
    let data = payload.get("d");
    if op == 10 {
        let heartbeat_interval = match u64_of(at(data, "heartbeat_interval")) {
            Some(v) => v,
            None => 41250,
        };
        GatewayEvent::Hello { heartbeat_interval }
    } else if op == 11 {
        GatewayEvent::HeartbeatAck
    } else if op == 7 {
        GatewayEvent::Reconnect
    } else if op == 9 {
        let resumable = match bool_of(data) {
            Some(b) => b,
            None => false,
        };
        GatewayEvent::InvalidSession { resumable }
    } else if op == 0 {
        parse_dispatch_event(event_name, data)
    } else {
        GatewayEvent::Unknown {
            op,
            event_name: match event_name {
                Some(n) => Some(String::from_str(n)),
                None => None,
            },
        }
    }
}

} // verus!
