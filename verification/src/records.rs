use std::collections::HashMap;
use vstd::prelude::*;
use crate::event::{opt_text, or_u64, text_or_empty};
use crate::json::{
    array_of, as_array, as_bool, as_i64, as_str, as_u64, at, bool_of, i64_of, id_from, id_of, jo,
    jv, jvs, lemma_jvs_index, member, string_of, text_of, u64_of, Json, JsonValue,
};
use crate::event::mention_ids;
use crate::types::{
    channel_type_from_u8, channel_type_of, CachedChannel, CachedGuild, CachedMessage, CachedRole,
    MessageAttachment, MessageEmbed, MessageReference,
};

verus! {

broadcast use vstd::std_specs::hash::group_hash_axioms;

// ---------------------------------------------------------------------------
// Attachments, embeds and replies of a message
// ---------------------------------------------------------------------------

/// The model of an attachment: file name, size, URL, content type.
pub open spec fn attachment_view(a: MessageAttachment) -> (Seq<char>, u64, Seq<char>, Option<
    Seq<char>,
>) {
    (a.filename@, a.size, a.url@, opt_text(a.content_type))
}

/// The attachment an item describes: it needs a text file name and a text URL.
pub open spec fn attachment_of(j: Json) -> Option<(Seq<char>, u64, Seq<char>, Option<Seq<char>>)> {
    match (as_str(member(j, "filename"@)), as_str(member(j, "url"@))) {
        (Some(f), Some(u)) => Some(
            (f, or_u64(as_u64(member(j, "size"@)), 0), u, as_str(member(j, "content_type"@))),
        ),
        _ => None,
    }
}

/// The attachments that the items describe, in order, skipping the items that describe none.
pub open spec fn attachments_of(items: Seq<Json>) -> Seq<
    (Seq<char>, u64, Seq<char>, Option<Seq<char>>),
>
    decreases items.len(),
{
    if items.len() == 0 {
        Seq::empty()
    } else {
        let rest = attachments_of(items.drop_last());
        match attachment_of(items.last()) {
            Some(a) => rest.push(a),
            None => rest,
        }
    }
}

/// The attachments of a message's data.
pub open spec fn message_attachments(raw: Json) -> Seq<(Seq<char>, u64, Seq<char>, Option<Seq<char>>)> {
    match as_array(member(raw, "attachments"@)) {
        Some(items) => attachments_of(items),
        None => Seq::empty(),
    }
}

/// Reads the attachments of a message's data.
pub fn parse_attachments_json(raw: &JsonValue) -> (r: Vec<MessageAttachment>)
    ensures
        r@.map_values(|a: MessageAttachment| attachment_view(a)) == message_attachments(jv(*raw)),
{
    let items = match array_of(raw.get("attachments")) {
        Some(items) => items,
        None => {
            let r: Vec<MessageAttachment> = Vec::new();
            assert(r@.map_values(|a: MessageAttachment| attachment_view(a)) =~= Seq::empty());
            return r;
        },
    };
    proof {
        lemma_jvs_index(items@);
    }
    let ghost js = jvs(items@);
    let mut out: Vec<MessageAttachment> = Vec::new();
    let mut i: usize = 0;
    while i < items.len()
        invariant
            js == jvs(items@),
            js.len() == items@.len(),
            forall|k: int| 0 <= k < items@.len() ==> #[trigger] js[k] == jv(items@[k]),
            i <= items@.len(),
            out@.map_values(|a: MessageAttachment| attachment_view(a)) == attachments_of(
                js.subrange(0, i as int),
            ),
        decreases items@.len() - i,
    {
        let ghost pre = js.subrange(0, i + 1);
        assert(pre.drop_last() =~= js.subrange(0, i as int));
        assert(pre.last() == jv(items@[i as int]));
        let item = Some(&items[i]);
        let filename = text_of(at(item, "filename"));
        let url = text_of(at(item, "url"));
        match (filename, url) {
            (Some(f), Some(u)) => {
                let size = match u64_of(at(item, "size")) {
                    Some(s) => s,
                    None => 0,
                };
                let a = MessageAttachment {
                    filename: String::from_str(f),
                    size,
                    url: String::from_str(u),
                    content_type: string_of(at(item, "content_type")),
                };
                let ghost before = out@;
                out.push(a);
                assert(out@.map_values(|a: MessageAttachment| attachment_view(a)) =~= before.map_values(
                    |a: MessageAttachment| attachment_view(a),
                ).push(attachment_view(a)));
            },
            _ => {},
        }
        i = i + 1;
    }
    assert(js.subrange(0, items@.len() as int) =~= js);
    out
}

/// The model of an embed: title, description, color, URL.
pub open spec fn embed_view(e: MessageEmbed) -> (Option<Seq<char>>, Option<Seq<char>>, Option<u32>, Option<
    Seq<char>,
>) {
    (opt_text(e.title), opt_text(e.description), e.color, opt_text(e.url))
}

/// The embed an item describes; a color is cut to its low 32 bits.
pub open spec fn embed_of(j: Json) -> (Option<Seq<char>>, Option<Seq<char>>, Option<u32>, Option<
    Seq<char>,
>) {
    (
        as_str(member(j, "title"@)),
        as_str(member(j, "description"@)),
        match as_u64(member(j, "color"@)) {
            Some(c) => Some(c as u32),
            None => None,
        },
        as_str(member(j, "url"@)),
    )
}

/// The embeds of a message's data, one per item.
pub open spec fn message_embeds(raw: Json) -> Seq<(Option<Seq<char>>, Option<Seq<char>>, Option<u32>, Option<Seq<char>>)> {
    match as_array(member(raw, "embeds"@)) {
        Some(items) => items.map_values(|j: Json| embed_of(j)),
        None => Seq::empty(),
    }
}

/// Reads the embeds of a message's data.
pub fn parse_embeds_json(raw: &JsonValue) -> (r: Vec<MessageEmbed>)
    ensures
        r@.map_values(|e: MessageEmbed| embed_view(e)) == message_embeds(jv(*raw)),
{
    let items = match array_of(raw.get("embeds")) {
        Some(items) => items,
        None => {
            let r: Vec<MessageEmbed> = Vec::new();
            assert(r@.map_values(|e: MessageEmbed| embed_view(e)) =~= Seq::empty());
            return r;
        },
    };
    proof {
        lemma_jvs_index(items@);
    }
    let ghost js = jvs(items@);
    let mut out: Vec<MessageEmbed> = Vec::new();
    let mut i: usize = 0;
    while i < items.len()
        invariant
            js == jvs(items@),
            js.len() == items@.len(),
            forall|k: int| 0 <= k < items@.len() ==> #[trigger] js[k] == jv(items@[k]),
            i <= items@.len(),
            out@.len() == i,
            forall|k: int| 0 <= k < i ==> #[trigger] embed_view(out@[k]) == embed_of(js[k]),
        decreases items@.len() - i,
    {
        let item = Some(&items[i]);
        let color = match u64_of(at(item, "color")) {
            Some(c) => Some(c as u32),
            None => None,
        };
        let e = MessageEmbed {
            title: string_of(at(item, "title")),
            description: string_of(at(item, "description")),
            color,
            url: string_of(at(item, "url")),
        };
        out.push(e);
        i = i + 1;
    }
    assert(out@.map_values(|e: MessageEmbed| embed_view(e)) =~= js.map_values(|j: Json| embed_of(j)));
    out
}

/// The message a message replies to, when its data has a `message_reference` object.
pub open spec fn message_reference_of(raw: Json) -> Option<MessageReference> {
    let r = member(raw, "message_reference"@);
    if r is Object {
        Some(
            MessageReference {
                message_id: id_of(member(r, "message_id"@)),
                channel_id: id_of(member(r, "channel_id"@)),
                guild_id: id_of(member(r, "guild_id"@)),
            },
        )
    } else {
        None
    }
}

/// Reads the reference of a reply from a message's data.
pub fn parse_message_reference_json(raw: &JsonValue) -> (r: Option<MessageReference>)
    ensures
        r == message_reference_of(jv(*raw)),
{
    let r = raw.get("message_reference");
    match r {
        Some(JsonValue::Object(_)) => Some(
            MessageReference {
                message_id: id_from(at(r, "message_id")),
                channel_id: id_from(at(r, "channel_id")),
                guild_id: id_from(at(r, "guild_id")),
            },
        ),
        _ => None,
    }
}

// ---------------------------------------------------------------------------
// Roles, guilds and channels
// ---------------------------------------------------------------------------

/// The role an item describes: it needs an id.
pub open spec fn role_of(j: Json) -> Option<CachedRoleView> {
    match id_of(member(j, "id"@)) {
        Some(id) => Some(
            CachedRoleView {
                id,
                name: text_or_empty(j, "name"@),
                color: or_u64(as_u64(member(j, "color"@)), 0) as u32,
                position: (match as_i64(member(j, "position"@)) {
                    Some(p) => p,
                    None => 0,
                }) as i32,
            },
        ),
        None => None,
    }
}

/// The model of a role.
pub struct CachedRoleView {
    pub id: u64,
    pub name: Seq<char>,
    pub color: u32,
    pub position: i32,
}

/// The model of a cached role.
pub open spec fn role_view(r: CachedRole) -> CachedRoleView {
    CachedRoleView { id: r.id, name: r.name@, color: r.color, position: r.position }
}

/// The roles that the items describe, by id; a later item with the same id wins.
pub open spec fn roles_of(items: Seq<Json>) -> Map<u64, CachedRoleView>
    decreases items.len(),
{
    if items.len() == 0 {
        Map::empty()
    } else {
        let rest = roles_of(items.drop_last());
        match role_of(items.last()) {
            Some(r) => rest.insert(r.id, r),
            None => rest,
        }
    }
}

/// Reads the roles of a guild.
pub fn parse_roles_json(roles: &Vec<JsonValue>) -> (r: HashMap<u64, CachedRole>)
    ensures
        r@.dom() == roles_of(jvs(roles@)).dom(),
        forall|k: u64| #[trigger] r@.contains_key(k) ==> role_view(r@[k]) == roles_of(jvs(roles@))[k],
{
    proof {
        lemma_jvs_index(roles@);
    }
    let ghost js = jvs(roles@);
    let mut map: HashMap<u64, CachedRole> = HashMap::new();
    let mut i: usize = 0;
    assert(roles_of(js.subrange(0, 0)) =~= Map::<u64, CachedRoleView>::empty());
    while i < roles.len()
        invariant
            js == jvs(roles@),
            js.len() == roles@.len(),
            forall|k: int| 0 <= k < roles@.len() ==> #[trigger] js[k] == jv(roles@[k]),
            i <= roles@.len(),
            map@.dom() == roles_of(js.subrange(0, i as int)).dom(),
            forall|k: u64| #[trigger]
                map@.contains_key(k) ==> role_view(map@[k]) == roles_of(js.subrange(0, i as int))[k],
        decreases roles@.len() - i,
    {
        let ghost pre = js.subrange(0, i + 1);
        assert(pre.drop_last() =~= js.subrange(0, i as int));
        assert(pre.last() == jv(roles@[i as int]));
        let item = Some(&roles[i]);
        if let Some(id) = id_from(at(item, "id")) {
            let name = match string_of(at(item, "name")) {
                Some(s) => s,
                None => String::new(),
            };
            let color = match u64_of(at(item, "color")) {
                Some(c) => c,
                None => 0,
            };
            let position = match i64_of(at(item, "position")) {
                Some(p) => p,
                None => 0,
            };
            let role = CachedRole { id, name, color: color as u32, position: position as i32 };
            map.insert(id, role);
            assert(map@.dom() =~= roles_of(pre).dom());
        }
        i = i + 1;
    }
    assert(js.subrange(0, roles@.len() as int) =~= js);
    map
}

/// The ids of the channels an array of channels lists, skipping items without an id.
pub open spec fn channel_ids_of(items: Seq<Json>) -> Seq<u64>
    decreases items.len(),
{
    if items.len() == 0 {
        Seq::empty()
    } else {
        let rest = channel_ids_of(items.drop_last());
        match id_of(member(items.last(), "id"@)) {
            Some(id) => rest.push(id),
            None => rest,
        }
    }
}

/// Whether `g` is the guild that an item of READY describes (`None` when it has no id).
pub open spec fn guild_fits(g: CachedGuild, j: Json) -> bool {
    &&& id_of(member(j, "id"@)) == Some(g.id)
    &&& g.name@ == text_or_empty(j, "name"@)
    &&& opt_text(g.icon) == as_str(member(j, "icon"@))
    &&& g.channel_order@ == match as_array(member(j, "channels"@)) {
        Some(items) => channel_ids_of(items),
        None => Seq::empty(),
    }
    &&& g.roles@.dom() == (match as_array(member(j, "roles"@)) {
        Some(items) => roles_of(items),
        None => Map::empty(),
    }).dom()
    &&& forall|k: u64| #[trigger]
        g.roles@.contains_key(k) ==> role_view(g.roles@[k]) == (match as_array(
            member(j, "roles"@),
        ) {
            Some(items) => roles_of(items),
            None => Map::empty(),
        })[k]
}

fn channel_ids(items: &Vec<JsonValue>) -> (r: Vec<u64>)
    ensures
        r@ == channel_ids_of(jvs(items@)),
{
    proof {
        lemma_jvs_index(items@);
    }
    let ghost js = jvs(items@);
    let mut out: Vec<u64> = Vec::new();
    let mut i: usize = 0;
    while i < items.len()
        invariant
            js == jvs(items@),
            js.len() == items@.len(),
            forall|k: int| 0 <= k < items@.len() ==> #[trigger] js[k] == jv(items@[k]),
            i <= items@.len(),
            out@ == channel_ids_of(js.subrange(0, i as int)),
        decreases items@.len() - i,
    {
        let ghost pre = js.subrange(0, i + 1);
        assert(pre.drop_last() =~= js.subrange(0, i as int));
        assert(pre.last() == jv(items@[i as int]));
        if let Some(id) = id_from((&items[i]).get("id")) {
            out.push(id);
        }
        i = i + 1;
    }
    assert(js.subrange(0, items@.len() as int) =~= js);
    out
}

/// Reads a guild listed in READY; `None` when it has no id.
pub fn parse_guild_json(json: &JsonValue) -> (r: Option<CachedGuild>)
    ensures
        match r {
            Some(g) => guild_fits(g, jv(*json)),
            None => id_of(member(jv(*json), "id"@)) is None,
        },
{
    let j = Some(json);
    let id = match id_from(at(j, "id")) {
        Some(v) => v,
        None => {
            return None;
        },
    };
    let name = match string_of(at(j, "name")) {
        Some(s) => s,
        None => String::new(),
    };
    let icon = string_of(at(j, "icon"));
    let roles = match array_of(at(j, "roles")) {
        Some(arr) => parse_roles_json(arr),
        None => HashMap::new(),
    };
    let channel_order = match array_of(at(j, "channels")) {
        Some(arr) => channel_ids(arr),
        None => Vec::new(),
    };
    Some(CachedGuild { id, name, icon, channel_order, roles })
}

/// Whether `c` is the channel that an item describes.
pub open spec fn channel_json_fits(c: CachedChannel, j: Json) -> bool {
    &&& id_of(member(j, "id"@)) == Some(c.id)
    &&& c.guild_id == id_of(member(j, "guild_id"@))
    &&& c.name@ == text_or_empty(j, "name"@)
    &&& c.kind == channel_type_of(or_u64(as_u64(member(j, "type"@)), 0) as u8)
    &&& c.position == (match as_i64(member(j, "position"@)) {
        Some(p) => p,
        None => 0,
    }) as i32
    &&& c.parent_id == id_of(member(j, "parent_id"@))
    &&& opt_text(c.topic) == as_str(member(j, "topic"@))
}

/// Reads a guild channel; `None` when it has no id.
pub fn parse_channel_json(json: &JsonValue) -> (r: Option<CachedChannel>)
    ensures
        match r {
            Some(c) => channel_json_fits(c, jv(*json)),
            None => id_of(member(jv(*json), "id"@)) is None,
        },
{
    let j = Some(json);
    let id = match id_from(at(j, "id")) {
        Some(v) => v,
        None => {
            return None;
        },
    };
    let guild_id = id_from(at(j, "guild_id"));
    let name = match string_of(at(j, "name")) {
        Some(s) => s,
        None => String::new(),
    };
    let kind = match u64_of(at(j, "type")) {
        Some(k) => k,
        None => 0,
    };
    let position = match i64_of(at(j, "position")) {
        Some(p) => p,
        None => 0,
    };
    let parent_id = id_from(at(j, "parent_id"));
    let topic = string_of(at(j, "topic"));
    Some(
        CachedChannel {
            id,
            guild_id,
            name,
            kind: channel_type_from_u8(kind as u8),
            position: position as i32,
            parent_id,
            topic,
        },
    )
}

/// The name of a direct-message channel: the first recipient's user name, else "DM".
pub open spec fn dm_name(j: Json) -> Seq<char> {
    match as_array(member(j, "recipients"@)) {
        Some(items) => if items.len() > 0 {
            match as_str(member(items[0], "username"@)) {
                Some(n) => n,
                None => "DM"@,
            }
        } else {
            "DM"@
        },
        None => "DM"@,
    }
}

/// Whether `c` is the direct-message channel that an item of READY describes.
pub open spec fn dm_fits(c: CachedChannel, j: Json) -> bool {
    &&& id_of(member(j, "id"@)) == Some(c.id)
    &&& c.guild_id is None
    &&& c.name@ == dm_name(j)
    &&& c.kind == channel_type_of(or_u64(as_u64(member(j, "type"@)), 1) as u8)
    &&& c.position == 0
    &&& c.parent_id is None
    &&& c.topic is None
}

/// Reads a direct-message channel from READY; `None` when it has no id.
pub fn parse_dm_channel_json(json: &JsonValue) -> (r: Option<CachedChannel>)
    ensures
        match r {
            Some(c) => dm_fits(c, jv(*json)),
            None => id_of(member(jv(*json), "id"@)) is None,
        },
{
    let j = Some(json);
    let id = match id_from(at(j, "id")) {
        Some(v) => v,
        None => {
            return None;
        },
    };
    let name = match array_of(at(j, "recipients")) {
        Some(arr) => {
            proof {
                lemma_jvs_index(arr@);
            }
            if arr.len() > 0 {
                match text_of((&arr[0]).get("username")) {
                    Some(n) => String::from_str(n),
                    None => String::from_str("DM"),
                }
            } else {
                String::from_str("DM")
            }
        },
        None => String::from_str("DM"),
    };
    let kind = match u64_of(at(j, "type")) {
        Some(k) => k,
        None => 1,
    };
    Some(
        CachedChannel {
            id,
            guild_id: None,
            name,
            kind: channel_type_from_u8(kind as u8),
            position: 0,
            parent_id: None,
            topic: None,
        },
    )
}

// ---------------------------------------------------------------------------
// Messages fetched over HTTP
// ---------------------------------------------------------------------------

/// Why a fetched message could not be read.
#[derive(Debug, Clone, Copy, PartialEq, Eq, Structural)]
pub enum MessageJsonError {
    /// The message has no text `id`.
    MissingId,
    /// The message's `id` is not a nonzero number.
    InvalidId,
    /// The message has no text `author.id`.
    MissingAuthorId,
    /// The author's id is not a nonzero number.
    InvalidAuthorId,
}

impl MessageJsonError {
    /// The error's message.
    pub fn message(&self) -> (r: &'static str)
        ensures
            *self == MessageJsonError::MissingId ==> r@ == "Message missing id"@,
            *self == MessageJsonError::InvalidId ==> r@ == "Invalid message id"@,
            *self == MessageJsonError::MissingAuthorId ==> r@ == "Message missing author.id"@,
            *self == MessageJsonError::InvalidAuthorId ==> r@ == "Invalid author id"@,
    {
        match self {
            MessageJsonError::MissingId => "Message missing id",
            MessageJsonError::InvalidId => "Invalid message id",
            MessageJsonError::MissingAuthorId => "Message missing author.id",
            MessageJsonError::InvalidAuthorId => "Invalid author id",
        }
    }
}

/// Whether `m` is the message that fetched data describes in channel `channel_id`.
pub open spec fn message_json_fits(m: CachedMessage, j: Json, channel_id: u64) -> bool {
    &&& id_of(member(j, "id"@)) == Some(m.id)
    &&& m.channel_id == channel_id
    &&& id_of(member(member(j, "author"@), "id"@)) == Some(m.author_id)
    &&& m.content@ == text_or_empty(j, "content"@)
    &&& m.timestamp@ == text_or_empty(j, "timestamp"@)
    &&& opt_text(m.edited_timestamp) == as_str(member(j, "edited_timestamp"@))
    &&& m.mention_everyone == (match as_bool(member(j, "mention_everyone"@)) {
        Some(b) => b,
        None => false,
    })
    &&& m.mentions@ == match as_array(member(j, "mentions"@)) {
        Some(items) => mention_ids(items),
        None => Seq::empty(),
    }
    &&& m.attachments@.map_values(|a: MessageAttachment| attachment_view(a)) == message_attachments(j)
    &&& m.embeds@.map_values(|e: MessageEmbed| embed_view(e)) == message_embeds(j)
    &&& m.message_reference == message_reference_of(j)
    &&& m.rendered is None
}

/// The error, if any, in reading fetched message data.
pub open spec fn message_json_error(j: Json) -> Option<MessageJsonError> {
    match as_str(member(j, "id"@)) {
        None => Some(MessageJsonError::MissingId),
        Some(s) => if !(crate::text::parse_u64_spec(s) matches Some(n) && n > 0) {
            Some(MessageJsonError::InvalidId)
        } else {
            match as_str(member(member(j, "author"@), "id"@)) {
                None => Some(MessageJsonError::MissingAuthorId),
                Some(a) => if !(crate::text::parse_u64_spec(a) matches Some(n) && n > 0) {
                    Some(MessageJsonError::InvalidAuthorId)
                } else {
                    None
                },
            }
        },
    }
}

/// The mentioned users of fetched message data.
fn parse_mention_list(msg: &JsonValue) -> (r: Vec<u64>)
    ensures
        r@ == match as_array(member(jv(*msg), "mentions"@)) {
            Some(items) => mention_ids(items),
            None => Seq::empty(),
        },
{
    match array_of(msg.get("mentions")) {
        Some(items) => crate::event::parse_mentions(items),
        None => Vec::new(),
    }
}

/// Reads a message fetched over HTTP into the cache's form.
pub fn json_to_cached_message(msg: &JsonValue, channel_id: u64) -> (r: Result<CachedMessage, MessageJsonError>)
    ensures
        match r {
            Ok(m) => message_json_error(jv(*msg)) is None && message_json_fits(m, jv(*msg), channel_id),
            Err(e) => message_json_error(jv(*msg)) == Some(e),
        },
{
    let j = Some(msg);
    let id_str = match text_of(at(j, "id")) {
        Some(s) => s,
        None => {
            return Err(MessageJsonError::MissingId);
        },
    };
    let id = match crate::text::parse_u64(crate::text::chars_of(id_str).as_slice()) {
        Some(v) if v > 0 => v,
        _ => {
            return Err(MessageJsonError::InvalidId);
        },
    };
    let author_id_str = match text_of(at(at(j, "author"), "id")) {
        Some(s) => s,
        None => {
            return Err(MessageJsonError::MissingAuthorId);
        },
    };
    let author_id = match crate::text::parse_u64(crate::text::chars_of(author_id_str).as_slice()) {
        Some(v) if v > 0 => v,
        _ => {
            return Err(MessageJsonError::InvalidAuthorId);
        },
    };
    let content = match string_of(at(j, "content")) {
        Some(s) => s,
        None => String::new(),
    };
    let timestamp = match string_of(at(j, "timestamp")) {
        Some(s) => s,
        None => String::new(),
    };
    let edited_timestamp = string_of(at(j, "edited_timestamp"));
    let mention_everyone = match bool_of(at(j, "mention_everyone")) {
        Some(b) => b,
        None => false,
    };
    let mentions = parse_mention_list(msg);
    let attachments = parse_attachments_json(msg);
    let embeds = parse_embeds_json(msg);
    let message_reference = parse_message_reference_json(msg);
    Ok(
        CachedMessage {
            id,
            channel_id,
            author_id,
            content,
            timestamp,
            edited_timestamp,
            attachments,
            embeds,
            message_reference,
            mention_everyone,
            mentions,
            rendered: None,
        },
    )
}


/// The first message in a list that cannot be read, and why.
pub open spec fn first_message_error(items: Seq<Json>) -> Option<MessageJsonError>
    decreases items.len(),
{
    if items.len() == 0 {
        None
    } else {
        match message_json_error(items[0]) {
            Some(e) => Some(e),
            None => first_message_error(items.drop_first()),
        }
    }
}

/// Why a page of fetched messages could not be read.
#[derive(Debug, Clone, Copy, PartialEq, Eq, Structural)]
pub enum MessagesResponseError {
    /// The response is not a JSON array.
    NotAnArray,
    /// A message of the page cannot be read.
    Message(MessageJsonError),
}

/// Reads a page of messages fetched over HTTP, which Discord sends newest first, into the
/// cache's form, oldest first. The first message that cannot be read fails the whole page.
pub fn parse_messages_response(body: &JsonValue, channel_id: u64) -> (r: Result<
    Vec<CachedMessage>,
    MessagesResponseError,
>)
    ensures
        match jv(*body) {
            Json::Array(items) => match r {
                Ok(v) => {
                    &&& first_message_error(items) is None
                    &&& v@.len() == items.len()
                    &&& forall|k: int|
                        0 <= k < v@.len() ==> message_json_fits(
                            #[trigger] v@[k],
                            items[items.len() - 1 - k],
                            channel_id,
                        )
                },
                Err(e) => first_message_error(items) matches Some(m) && e
                    == MessagesResponseError::Message(m),
            },
            _ => r == Err::<Vec<CachedMessage>, MessagesResponseError>(
                MessagesResponseError::NotAnArray,
            ),
        },
{
    let items = match body {
        JsonValue::Array(items) => items,
        _ => {
            return Err(MessagesResponseError::NotAnArray);
        },
    };
    proof {
        lemma_jvs_index(items@);
    }
    let ghost all = jvs(items@);
    assert(jv(*body) == Json::Array(all));
    assert(all.skip(0) =~= all);
    let mut read: Vec<CachedMessage> = Vec::new();
    let mut i: usize = 0;
    while i < items.len()
        invariant
            all == jvs(items@),
            jv(*body) == Json::Array(all),
            all.len() == items@.len(),
            forall|k: int| 0 <= k < items@.len() ==> #[trigger] all[k] == jv(items@[k]),
            i <= items@.len(),
            read@.len() == i,
            first_message_error(all) == first_message_error(all.skip(i as int)),
            forall|k: int| 0 <= k < i ==> message_json_fits(#[trigger] read@[k], all[k], channel_id),
        decreases items@.len() - i,
    {
        let ghost rest = all.skip(i as int);
        assert(rest[0] == all[i as int]);
        assert(rest.drop_first() =~= all.skip(i + 1));
        match json_to_cached_message(&items[i], channel_id) {
            Ok(m) => {
                assert(first_message_error(rest) == first_message_error(all.skip(i + 1)));
                read.push(m);
            },
            Err(e) => {
                assert(first_message_error(rest) == Some(e));
                return Err(MessagesResponseError::Message(e));
            },
        }
        i = i + 1;
    }
    assert(all.skip(i as int) =~= Seq::<Json>::empty());
    let ghost orig = read@;
    let mut out: Vec<CachedMessage> = Vec::new();
    while read.len() > 0
        invariant
            out@.len() + read@.len() == orig.len(),
            read@ == orig.take(read@.len() as int),
            forall|k: int| 0 <= k < out@.len() ==> #[trigger] out@[k] == orig[orig.len() - 1 - k],
        decreases read@.len(),
    {
        let m = read.pop().unwrap();
        out.push(m);
        assert(read@ =~= orig.take(read@.len() as int));
    }
    Ok(out)
}

/// A page of messages reads exactly when every message of it reads on its own, and fails with
/// the error of the first message that does not.
pub proof fn law_page_reads_like_its_messages(items: Seq<Json>)
    ensures
        first_message_error(items) is None <==> forall|i: int|
            0 <= i < items.len() ==> message_json_error(#[trigger] items[i]) is None,
        first_message_error(items) matches Some(e) ==> exists|i: int|
            0 <= i < items.len() && message_json_error(#[trigger] items[i]) == Some(e) && forall|
                j: int,
            | 0 <= j < i ==> message_json_error(#[trigger] items[j]) is None,
    decreases items.len(),
{
    if items.len() > 0 {
        let rest = items.drop_first();
        law_page_reads_like_its_messages(rest);
        assert forall|i: int| 0 <= i < rest.len() implies rest[i] == items[i + 1] by {}
        if message_json_error(items[0]) is None {
            if first_message_error(rest) is None {
                assert forall|i: int| 0 <= i < items.len() implies message_json_error(
                    #[trigger] items[i],
                ) is None by {
                    if i > 0 {
                        assert(items[i] == rest[i - 1]);
                    }
                }
            } else {
                let e = first_message_error(rest)->0;
                let i = choose|i: int|
                    0 <= i < rest.len() && message_json_error(#[trigger] rest[i]) == Some(e)
                        && forall|j: int| 0 <= j < i ==> message_json_error(#[trigger] rest[j]) is None;
                assert(message_json_error(items[i + 1]) == Some(e));
                assert forall|j: int| 0 <= j < i + 1 implies message_json_error(
                    #[trigger] items[j],
                ) is None by {
                    if j > 0 {
                        assert(items[j] == rest[j - 1]);
                    }
                }
            }
        } else {
            assert(message_json_error(items[0]) == first_message_error(items));
        }
    }
}

} // verus!
