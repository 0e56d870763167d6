use std::collections::HashMap;
use vstd::prelude::*;
use crate::app::AppState;
use crate::cache::{
    append_new, channel_inserted, channel_messages, channel_removed, guild_removed, keep_newest,
    keep_oldest, message_deleted, message_edited, DiscordCache,
};
use crate::event::{
    opt_text, or_u64, ChannelEvent, GatewayEvent, GuildCreateEvent, MessageCreateEvent,
    MessageUpdateEvent, ReadyEvent,
};
use crate::json::{
    array_of, as_array, as_str, at, id_from, id_of, jo, jv, jvs, lemma_jvs_index, member, string_of, Json,
    JsonValue,
};
use crate::records::{
    attachment_view, embed_view, message_attachments, message_embeds, message_reference_of,
    parse_attachments_json, parse_channel_json, parse_dm_channel_json, parse_embeds_json,
    parse_guild_json, parse_message_reference_json, parse_roles_json, role_view, roles_of,
};
use crate::types::{
    channel_type_from_u8, channel_type_of, BackgroundResult, CachedChannel, CachedGuild,
    CachedMessage, CachedUser, ConnectionState, DbRequest, MessageAttachment, MessageEmbed,
};

verus! {

broadcast use vstd::std_specs::hash::group_hash_axioms;

/// How long a typing indicator lasts, in milliseconds.
pub const TYPING_TIMEOUT_MS: u64 = 10000;

/// Whether `n` leaves the interface state of `o` alone: panes, focus, sidebar, mode, settings.
pub open spec fn ui_unchanged(o: AppState, n: AppState) -> bool {
    &&& n.panes == o.panes
    &&& n.focused_pane == o.focused_pane
    &&& n.sidebar == o.sidebar
    &&& n.sidebar_visible == o.sidebar_visible
    &&& n.input_mode == o.input_mode
    &&& n.config == o.config
}

/// Whether `n` is `o` apart from the cache.
pub open spec fn only_cache_changed(o: AppState, n: AppState) -> bool {
    &&& ui_unchanged(o, n)
    &&& n.connection == o.connection
    &&& n.current_user_id == o.current_user_id
    &&& n.status_message == o.status_message
    &&& n.status_error == o.status_error
}

/// Copies of some ids.
fn copy_ids(v: &Vec<u64>) -> (r: Vec<u64>)
    ensures
        r@ == v@,
{
    let mut out: Vec<u64> = Vec::new();
    let mut i: usize = 0;
    while i < v.len()
        invariant
            i <= v@.len(),
            out@ == v@.subrange(0, i as int),
        decreases v@.len() - i,
    {
        out.push(v[i]);
        assert(out@ =~= v@.subrange(0, i + 1));
        i = i + 1;
    }
    assert(v@.subrange(0, v@.len() as int) =~= v@);
    out
}

/// Whether `c` is the cached form of a created message.
pub open spec fn created_fits(c: CachedMessage, m: MessageCreateEvent) -> bool {
    &&& c.id == m.id
    &&& c.channel_id == m.channel_id
    &&& c.author_id == m.author_id
    &&& c.content@ == m.content@
    &&& c.timestamp@ == m.timestamp@
    &&& c.edited_timestamp is None
    &&& c.attachments@.map_values(|a: MessageAttachment| attachment_view(a)) == message_attachments(
        jv(m.raw),
    )
    &&& c.embeds@.map_values(|e: MessageEmbed| embed_view(e)) == message_embeds(jv(m.raw))
    &&& c.message_reference == message_reference_of(jv(m.raw))
    &&& c.mention_everyone == m.mention_everyone
    &&& c.mentions@ == m.mentions@
    &&& c.rendered is None
}

/// The cached form of a created message.
fn cached_from_create(m: &MessageCreateEvent) -> (c: CachedMessage)
    ensures
        created_fits(c, *m),
{
    CachedMessage {
        id: m.id,
        channel_id: m.channel_id,
        author_id: m.author_id,
        content: m.content.clone(),
        timestamp: m.timestamp.clone(),
        edited_timestamp: None,
        attachments: parse_attachments_json(&m.raw),
        embeds: parse_embeds_json(&m.raw),
        message_reference: parse_message_reference_json(&m.raw),
        mention_everyone: m.mention_everyone,
        mentions: copy_ids(&m.mentions),
        rendered: None,
    }
}

/// Whether `u` is the user that READY's `user` describes.
pub open spec fn ready_user_fits(u: CachedUser, j: Json, id: u64) -> bool {
    &&& u.id == id
    &&& u.name@ == crate::event::text_or_empty(j, "username"@)
    &&& u.discriminator is None
    &&& opt_text(u.display_name) == as_str(member(j, "global_name"@))
    &&& opt_text(u.avatar) == as_str(member(j, "avatar"@))
}

/// The ids of the direct-message channels READY lists, skipping items without an id.
pub open spec fn dm_ids(items: Seq<Json>) -> Seq<u64>
    decreases items.len(),
{
    if items.len() == 0 {
        Seq::empty()
    } else {
        let rest = dm_ids(items.drop_last());
        match id_of(member(items.last(), "id"@)) {
            Some(id) => rest.push(id),
            None => rest,
        }
    }
}

/// Whether a guild's JSON lists a channel with id `c` in its `channels` array.
pub open spec fn lists_channel(g: Json, c: u64) -> bool {
    match as_array(member(g, "channels"@)) {
        Some(cs) => exists|m: int| 0 <= m < cs.len() && id_of(member(#[trigger] cs[m], "id"@)) == Some(c),
        None => false,
    }
}

/// Whether `n` is `o` after READY: connected with the event's session and resume URL, the
/// current user recorded (when READY names one), its guilds with their channels and its DM
/// channels cached, the DM channels listed after the ones known before, and the status saying
/// so.
pub open spec fn ready_applied(o: AppState, n: AppState, ready: ReadyEvent) -> bool {
    &&& n.connection == (ConnectionState::Connected {
        session_id: ready.session_id,
        resume_url: ready.resume_gateway_url,
        sequence: 0,
    })
    &&& match id_of(member(jv(ready.user), "id"@)) {
        Some(uid) => n.current_user_id == Some(uid) && n.cache.users@.dom()
            == o.cache.users@.dom().insert(uid) && ready_user_fits(
            n.cache.users@[uid],
            jv(ready.user),
            uid,
        ) && (forall|k: u64| k != uid && #[trigger] o.cache.users@.contains_key(k)
            ==> n.cache.users@[k] == o.cache.users@[k]),
        None => n.current_user_id == o.current_user_id && n.cache.users@ == o.cache.users@,
    }
    &&& n.cache.dm_channels@ == o.cache.dm_channels@ + dm_ids(jvs(ready.private_channels@))
    &&& forall|k: int|
        0 <= k < ready.private_channels@.len() ==> (id_of(
            member(#[trigger] jvs(ready.private_channels@)[k], "id"@),
        ) matches Some(c) ==> n.cache.channels@.contains_key(c))
    &&& forall|k: int|
        0 <= k < ready.guilds@.len() ==> (id_of(member(#[trigger] jvs(ready.guilds@)[k], "id"@))
            matches Some(g) ==> n.cache.guilds@.contains_key(g))
    &&& forall|k: int, c: u64|
        0 <= k < ready.guilds@.len() && id_of(member(jvs(ready.guilds@)[k], "id"@)) is Some
            && #[trigger] lists_channel(jvs(ready.guilds@)[k], c) ==> n.cache.channels@.contains_key(c)
    &&& opt_text(n.status_message) == Some("Connected"@)
    &&& n.status_error is None
}

fn handle_ready(ready: Box<ReadyEvent>, state: &mut AppState)
    ensures
        ui_unchanged(*old(state), *final(state)),
        ready_applied(*old(state), *final(state), *ready),
{
    let ready = *ready;
    state.connection = ConnectionState::Connected {
        session_id: ready.session_id.clone(),
        resume_url: ready.resume_gateway_url.clone(),
        sequence: 0,
    };
    let user = Some(&ready.user);
    if let Some(uid) = id_from(at(user, "id")) {
        state.current_user_id = Some(uid);
        let name = match string_of(at(user, "username")) {
            Some(s) => s,
            None => String::new(),
        };
        let cached = CachedUser {
            id: uid,
            name,
            discriminator: None,
            display_name: string_of(at(user, "global_name")),
            avatar: string_of(at(user, "avatar")),
        };
        state.cache.users.insert(uid, cached);
    }
    let ghost users_after = state.cache.users@;
    let ghost dms_before = state.cache.dm_channels@;
    proof {
        lemma_jvs_index(ready.guilds@);
        lemma_jvs_index(ready.private_channels@);
    }
    let ghost gs = jvs(ready.guilds@);
    let mut i: usize = 0;
    while i < ready.guilds.len()
        invariant
            gs == jvs(ready.guilds@),
            gs.len() == ready.guilds@.len(),
            forall|k: int| 0 <= k < ready.guilds@.len() ==> #[trigger] gs[k] == jv(ready.guilds@[k]),
            i <= ready.guilds@.len(),
            state.cache.users@ == users_after,
            state.cache.dm_channels@ == dms_before,
            ui_unchanged(*old(state), *state),
            state.connection == (ConnectionState::Connected {
                session_id: ready.session_id,
                resume_url: ready.resume_gateway_url,
                sequence: 0,
            }),
            state.current_user_id == match id_of(member(jv(ready.user), "id"@)) {
                Some(uid) => Some(uid),
                None => old(state).current_user_id,
            },
            forall|k: int|
                0 <= k < i ==> (id_of(member(#[trigger] gs[k], "id"@)) matches Some(g)
                    ==> state.cache.guilds@.contains_key(g)),
            forall|k: int, c: u64|
                0 <= k < i && id_of(member(gs[k], "id"@)) is Some && #[trigger] lists_channel(gs[k], c)
                    ==> state.cache.channels@.contains_key(c),
        decreases ready.guilds@.len() - i,
    {
        let guild_json = &ready.guilds[i];
        let ghost g = gs[i as int];
        if let Some(guild) = parse_guild_json(guild_json) {
            if let Some(channels) = array_of(guild_json.get("channels")) {
                let ghost cs = jvs(channels@);
                proof {
                    lemma_jvs_index(channels@);
                }
                let ghost before = state.cache.channels@;
                let mut j: usize = 0;
                while j < channels.len()
                    invariant
                        cs == jvs(channels@),
                        cs.len() == channels@.len(),
                        forall|m: int| 0 <= m < channels@.len() ==> #[trigger] cs[m] == jv(channels@[m]),
                        j <= channels@.len(),
                        state.cache.users@ == users_after,
                        state.cache.dm_channels@ == dms_before,
                        ui_unchanged(*old(state), *state),
                        state.connection == (ConnectionState::Connected {
                            session_id: ready.session_id,
                            resume_url: ready.resume_gateway_url,
                            sequence: 0,
                        }),
                        state.current_user_id == match id_of(member(jv(ready.user), "id"@)) {
                            Some(uid) => Some(uid),
                            None => old(state).current_user_id,
                        },
                        forall|k: int|
                            0 <= k < i ==> (id_of(member(#[trigger] gs[k], "id"@)) matches Some(g)
                                ==> state.cache.guilds@.contains_key(g)),
                        forall|c: u64| #[trigger] before.contains_key(c) ==> state.cache.channels@.contains_key(c),
                        forall|m: int|
                            0 <= m < j ==> (id_of(member(#[trigger] cs[m], "id"@)) matches Some(c)
                                ==> state.cache.channels@.contains_key(c)),
                    decreases channels@.len() - j,
                {
                    if let Some(channel) = parse_channel_json(&channels[j]) {
                        state.cache.insert_channel(channel);
                    }
                    j = j + 1;
                }
                proof {
                    assert forall|c: u64| #[trigger] lists_channel(g, c) implies state.cache.channels@.contains_key(c) by {
                        assert(as_array(member(g, "channels"@)) == Some(cs));
                        let m = choose|m: int| 0 <= m < cs.len() && id_of(member(#[trigger] cs[m], "id"@)) == Some(c);
                        assert(id_of(member(cs[m], "id"@)) == Some(c));
                    }
                }
            }
            state.cache.insert_guild(guild);
        }
        i = i + 1;
    }
    let ghost ds = jvs(ready.private_channels@);
    let mut i: usize = 0;
    while i < ready.private_channels.len()
        invariant
            ds == jvs(ready.private_channels@),
            ds.len() == ready.private_channels@.len(),
            forall|k: int|
                0 <= k < ready.private_channels@.len() ==> #[trigger] ds[k] == jv(
                    ready.private_channels@[k],
                ),
            i <= ready.private_channels@.len(),
            state.cache.users@ == users_after,
            state.cache.dm_channels@ == dms_before + dm_ids(ds.subrange(0, i as int)),
            ui_unchanged(*old(state), *state),
            state.connection == (ConnectionState::Connected {
                session_id: ready.session_id,
                resume_url: ready.resume_gateway_url,
                sequence: 0,
            }),
            state.current_user_id == match id_of(member(jv(ready.user), "id"@)) {
                Some(uid) => Some(uid),
                None => old(state).current_user_id,
            },
            forall|k: int|
                0 <= k < ready.guilds@.len() ==> (id_of(member(#[trigger] gs[k], "id"@)) matches Some(
                    g,
                ) ==> state.cache.guilds@.contains_key(g)),
            forall|k: int|
                0 <= k < i ==> (id_of(member(#[trigger] ds[k], "id"@)) matches Some(c)
                    ==> state.cache.channels@.contains_key(c)),
            forall|k: int, c: u64|
                0 <= k < ready.guilds@.len() && id_of(member(gs[k], "id"@)) is Some
                    && #[trigger] lists_channel(gs[k], c) ==> state.cache.channels@.contains_key(c),
        decreases ready.private_channels@.len() - i,
    {
        let ghost pre = ds.subrange(0, i + 1);
        assert(pre.drop_last() =~= ds.subrange(0, i as int));
        assert(pre.last() == jv(ready.private_channels@[i as int]));
        if let Some(dm) = parse_dm_channel_json(&ready.private_channels[i]) {
            let ghost before = state.cache.dm_channels@;
            state.cache.dm_channels.push(dm.id);
            state.cache.insert_channel(dm);
            assert(state.cache.dm_channels@ =~= dms_before + dm_ids(pre));
        } else {
            assert(dm_ids(pre) == dm_ids(ds.subrange(0, i as int)));
        }
        i = i + 1;
    }
    assert(ds.subrange(0, ds.len() as int) =~= ds);
    state.status_message = Some(String::from_str("Connected"));
    state.status_error = None;
}

/// Whether `n`'s cache holds the created message and its author, as creating it does.
pub open spec fn message_created(o: DiscordCache, n: DiscordCache, m: MessageCreateEvent) -> bool {
    let s = n.messages@[m.channel_id]@;
    &&& n.users@ == if o.users@.contains_key(m.author_id) {
        o.users@
    } else {
        o.users@.insert(
            m.author_id,
            CachedUser {
                id: m.author_id,
                name: m.author_name,
                discriminator: None,
                display_name: None,
                avatar: None,
            },
        )
    }
    &&& n.messages@ == o.messages@.insert(m.channel_id, n.messages@[m.channel_id])
    &&& s.len() > 0
    &&& created_fits(s.last(), m)
    &&& s == keep_newest(channel_messages(o.messages@, m.channel_id).push(s.last()))
    &&& n.guilds@ == o.guilds@
    &&& n.channels@ == o.channels@
    &&& n.guild_order@ == o.guild_order@
    &&& n.typing@ == o.typing@
    &&& n.channel_guild@ == o.channel_guild@
    &&& n.dm_channels@ == o.dm_channels@
}

fn handle_message_create(msg: Box<MessageCreateEvent>, state: &mut AppState) -> (db: DbRequest)
    ensures
        only_cache_changed(*old(state), *final(state)),
        message_created(old(state).cache, final(state).cache, *msg),
        (db matches DbRequest::InsertMessage(c) && created_fits(c, *msg)),
{
    let msg = *msg;
    if !state.cache.users.contains_key(&msg.author_id) {
        state.cache.users.insert(
            msg.author_id,
            CachedUser {
                id: msg.author_id,
                name: msg.author_name.clone(),
                discriminator: None,
                display_name: None,
                avatar: None,
            },
        );
    }
    let for_db = cached_from_create(&msg);
    let cached = cached_from_create(&msg);
    let ghost c = cached;
    state.cache.insert_message(cached);
    proof {
        let s = state.cache.messages@[msg.channel_id]@;
        let full = channel_messages(old(state).cache.messages@, msg.channel_id).push(c);
        assert(full.last() == c);
        if full.len() > crate::types::MAX_CACHED_MESSAGES_PER_CHANNEL {
            assert(s.last() == full.last());
        }
        assert(s.last() == c);
    }
    DbRequest::InsertMessage(for_db)
}

/// Processes a gateway event: updates the state and the cache, and gives whether the screen
/// must be redrawn and the request, if any, for the message store. `now_ms` is the current
/// time in milliseconds.
pub fn handle_gateway_event(event: GatewayEvent, state: &mut AppState, now_ms: u64) -> (r: (
    bool,
    Option<DbRequest>,
))
    ensures
        ui_unchanged(*old(state), *final(state)),
        match event {
            GatewayEvent::Ready(rd) => r.0 && r.1 is None && ready_applied(
                *old(state),
                *final(state),
                *rd,
            ),
            GatewayEvent::Resumed => r.0 && r.1 is None && opt_text(final(state).status_message)
                == Some("Resumed"@) && final(state).cache == old(state).cache
                && final(state).connection == old(state).connection,
            GatewayEvent::MessageCreate(m) => r.0 && only_cache_changed(*old(state), *final(state))
                && message_created(
                old(state).cache,
                final(state).cache,
                *m,
            ) && (r.1 matches Some(DbRequest::InsertMessage(c)) && created_fits(c, *m)),
            GatewayEvent::MessageUpdate(u) => r.0 && match (u.content, u.edited_timestamp) {
                (Some(c), Some(t)) => r.1 == Some(
                    DbRequest::UpdateMessage { id: u.id, content: c, edited_timestamp: t },
                ),
                _ => r.1 is None,
            } && only_cache_changed(*old(state), *final(state)) && match u.content {
                Some(c) => message_edited(
                    old(state).cache,
                    final(state).cache,
                    u.channel_id,
                    u.id,
                    c,
                    u.edited_timestamp,
                ),
                None => final(state).cache == old(state).cache,
            },
            GatewayEvent::MessageDelete { id, channel_id } => r.0 && r.1 == Some(
                DbRequest::DeleteMessage(id),
            ) && only_cache_changed(*old(state), *final(state)) && message_deleted(
                old(state).cache,
                final(state).cache,
                channel_id,
                id,
            ),
            GatewayEvent::GuildCreate(g) => r.0 && r.1 is None && only_cache_changed(
                *old(state),
                *final(state),
            ) && guild_created(old(state).cache, final(state).cache, *g),
            GatewayEvent::GuildDelete { id } => r.0 && r.1 is None && only_cache_changed(
                *old(state),
                *final(state),
            ) && guild_removed(old(state).cache, final(state).cache, id),
            GatewayEvent::ChannelCreate(c) => r.0 && r.1 is None && only_cache_changed(
                *old(state),
                *final(state),
            ) && channel_cached_from(old(state).cache, final(state).cache, *c),
            GatewayEvent::ChannelUpdate(c) => r.0 && r.1 is None && only_cache_changed(
                *old(state),
                *final(state),
            ) && channel_cached_from(old(state).cache, final(state).cache, *c),
            GatewayEvent::ChannelDelete(c) => r.0 && r.1 is None && only_cache_changed(
                *old(state),
                *final(state),
            ) && channel_removed(old(state).cache, final(state).cache, c.id),
            GatewayEvent::TypingStart { channel_id, user_id, .. } => r.0 && r.1 is None
                && only_cache_changed(*old(state), *final(state)) && final(state).cache.typing@ == old(state).cache.typing@.insert(
                channel_id,
                final(state).cache.typing@[channel_id],
            ) && final(state).cache.typing@[channel_id]@ == typing_after(
                typing_of(old(state).cache, channel_id),
                user_id,
                now_ms,
            ),
            GatewayEvent::InvalidSession { .. } => r.0 && r.1 is None && final(state).connection
                == ConnectionState::Disconnected && opt_text(final(state).status_error) == Some(
                "Session invalidated, reconnecting..."@,
            ) && final(state).cache == old(state).cache,
            GatewayEvent::Reconnect => r.0 && r.1 is None && final(state).connection
                == ConnectionState::Connecting && opt_text(final(state).status_message) == Some(
                "Reconnecting..."@,
            ) && final(state).cache == old(state).cache,
            _ => !r.0 && r.1 is None && only_cache_changed(*old(state), *final(state))
                && final(state).cache == old(state).cache,
        },
{
    match event {
        GatewayEvent::Ready(ready) => {
            handle_ready(ready, state);
            (true, None)
        },
        GatewayEvent::Resumed => {
            state.status_message = Some(String::from_str("Resumed"));
            (true, None)
        },
        GatewayEvent::MessageCreate(msg) => {
            let db = handle_message_create(msg, state);
            (true, Some(db))
        },
        GatewayEvent::MessageUpdate(update) => {
            let update = *update;
            let mut db = None;
            if let Some(content) = &update.content {
                state.cache.update_message(
                    update.channel_id,
                    update.id,
                    content.clone(),
                    update.edited_timestamp.clone(),
                );
                if let Some(edited_ts) = &update.edited_timestamp {
                    db = Some(
                        DbRequest::UpdateMessage {
                            id: update.id,
                            content: content.clone(),
                            edited_timestamp: edited_ts.clone(),
                        },
                    );
                }
            }
            (true, db)
        },
        GatewayEvent::MessageDelete { id, channel_id } => {
            state.cache.delete_message(channel_id, id);
            (true, Some(DbRequest::DeleteMessage(id)))
        },
        GatewayEvent::GuildCreate(guild) => {
            handle_guild_create(guild, state);
            (true, None)
        },
        GatewayEvent::GuildDelete { id } => {
            state.cache.remove_guild(id);
            (true, None)
        },
        GatewayEvent::ChannelCreate(ch) | GatewayEvent::ChannelUpdate(ch) => {
            let channel = channel_from_event(&ch);
            let ghost cc = channel;
            state.cache.insert_channel(channel);
            assert(channel_cached_from(old(state).cache, state.cache, *ch)) by {
                assert(channel_event_cached(cc, *ch) && channel_inserted(old(state).cache, state.cache, cc));
            }
            (true, None)
        },
        GatewayEvent::ChannelDelete(ch) => {
            state.cache.remove_channel(ch.id);
            (true, None)
        },
        GatewayEvent::TypingStart { channel_id, user_id, .. } => {
            note_typing(&mut state.cache, channel_id, user_id, now_ms);
            (true, None)
        },
        GatewayEvent::InvalidSession { .. } => {
            state.connection = ConnectionState::Disconnected;
            state.status_error = Some(String::from_str("Session invalidated, reconnecting..."));
            (true, None)
        },
        GatewayEvent::Reconnect => {
            state.connection = ConnectionState::Connecting;
            state.status_message = Some(String::from_str("Reconnecting..."));
            (true, None)
        },
        // Hello and heartbeat acknowledgements belong to the gateway connection.
        _ => (false, None),
    }
}

/// Whether `n` is `o` with the channel that a channel event describes added or replaced.
pub open spec fn channel_cached_from(o: DiscordCache, n: DiscordCache, e: ChannelEvent) -> bool {
    exists|x: CachedChannel| #[trigger] channel_event_cached(x, e) && channel_inserted(o, n, x)
}

/// Whether `c` is the cached form of a channel event.
pub open spec fn channel_event_cached(c: CachedChannel, e: ChannelEvent) -> bool {
    &&& c.id == e.id
    &&& c.guild_id == e.guild_id
    &&& c.name@ == e.name@
    &&& c.kind == channel_type_of(e.kind)
    &&& c.position == e.position
    &&& c.parent_id == id_of(member(jv(e.raw), "parent_id"@))
    &&& opt_text(c.topic) == as_str(member(jv(e.raw), "topic"@))
}

fn channel_from_event(ch: &ChannelEvent) -> (c: CachedChannel)
    ensures
        channel_event_cached(c, *ch),
{
    let raw = Some(&ch.raw);
    CachedChannel {
        id: ch.id,
        guild_id: ch.guild_id,
        name: ch.name.clone(),
        kind: channel_type_from_u8(ch.kind),
        position: ch.position,
        parent_id: id_from(at(raw, "parent_id")),
        topic: string_of(at(raw, "topic")),
    }
}

/// Whether `n`'s cache holds the guild that GUILD_CREATE describes: its name, icon and roles,
/// placed in the guild order, with every channel of the event that has an id cached and listed
/// in the guild's channel order; users, messages, typing, read state and DM channels untouched.
pub open spec fn guild_created(o: DiscordCache, n: DiscordCache, g: GuildCreateEvent) -> bool {
    &&& n.guilds@.contains_key(g.id)
    &&& n.guilds@[g.id].name@ == g.name@
    &&& opt_text(n.guilds@[g.id].icon) == as_str(member(jv(g.raw), "icon"@))
    &&& n.guilds@[g.id].roles@.dom() == roles_of(jvs(g.roles@)).dom()
    &&& forall|k: u64| #[trigger]
        n.guilds@[g.id].roles@.contains_key(k) ==> role_view(n.guilds@[g.id].roles@[k]) == roles_of(
            jvs(g.roles@),
        )[k]
    &&& n.guild_order@ == append_new(o.guild_order@, g.id)
    &&& forall|k: int|
        0 <= k < g.channels@.len() ==> (id_of(member(#[trigger] jvs(g.channels@)[k], "id"@))
            matches Some(c) ==> n.channels@.contains_key(c) && n.guilds@[g.id].channel_order@.contains(
            c,
        ))
    &&& n.users@ == o.users@
    &&& n.messages@ == o.messages@
    &&& n.typing@ == o.typing@
    &&& n.read_states@ == o.read_states@
    &&& n.dm_channels@ == o.dm_channels@
}

fn handle_guild_create(guild: Box<GuildCreateEvent>, state: &mut AppState)
    ensures
        only_cache_changed(*old(state), *final(state)),
        guild_created(old(state).cache, final(state).cache, *guild),
{
    let guild = *guild;
    let roles = parse_roles_json(&guild.roles);
    let cached_guild = CachedGuild {
        id: guild.id,
        name: guild.name.clone(),
        icon: string_of(at(Some(&guild.raw), "icon")),
        channel_order: Vec::new(),
        roles,
    };
    let ghost first = cached_guild;
    state.cache.insert_guild(cached_guild);
    proof {
        lemma_jvs_index(guild.channels@);
    }
    let ghost cs = jvs(guild.channels@);
    let ghost c0 = state.cache;
    let mut i: usize = 0;
    while i < guild.channels.len()
        invariant
            cs == jvs(guild.channels@),
            cs.len() == guild.channels@.len(),
            forall|k: int| 0 <= k < guild.channels@.len() ==> #[trigger] cs[k] == jv(guild.channels@[k]),
            i <= guild.channels@.len(),
            only_cache_changed(*old(state), *state),
            state.cache.guilds@.contains_key(guild.id),
            state.cache.guilds@[guild.id] == (CachedGuild {
                channel_order: state.cache.guilds@[guild.id].channel_order,
                ..first
            }),
            state.cache.guild_order@ == c0.guild_order@,
            state.cache.users@ == c0.users@,
            state.cache.messages@ == c0.messages@,
            state.cache.typing@ == c0.typing@,
            state.cache.read_states@ == c0.read_states@,
            state.cache.dm_channels@ == c0.dm_channels@,
            forall|k: int|
                0 <= k < i ==> (id_of(member(#[trigger] cs[k], "id"@)) matches Some(c)
                    ==> state.cache.channels@.contains_key(c)
                    && state.cache.guilds@[guild.id].channel_order@.contains(c)),
        decreases guild.channels@.len() - i,
    {
        if let Some(channel) = parse_channel_json(&guild.channels[i]) {
            let ch_id = channel.id;
            let ghost before = state.cache;
            state.cache.insert_channel(channel);
            proof {
                assert forall|k: int|
                    0 <= k < i && (id_of(member(#[trigger] cs[k], "id"@)) matches Some(c)) implies ({
                    let c = id_of(member(cs[k], "id"@))->0;
                    state.cache.channels@.contains_key(c) && state.cache.guilds@[guild.id].channel_order@.contains(c)
                }) by {
                    let c = id_of(member(cs[k], "id"@))->0;
                    assert(before.guilds@[guild.id].channel_order@.contains(c));
                    if channel.guild_id == Some(guild.id) {
                        crate::cache::lemma_append_new_keeps(before.guilds@[guild.id].channel_order@, ch_id, c);
                    }
                }
            }
            if let Some(mut g) = state.cache.guilds.remove(&guild.id) {
                let ghost gb = g;
                if !crate::cache::vec_contains(&g.channel_order, ch_id) {
                    g.channel_order.push(ch_id);
                }
                proof {
                    assert forall|c: u64| gb.channel_order@.contains(c) implies g.channel_order@.contains(c) by {
                        if !gb.channel_order@.contains(ch_id) {
                            let w = choose|w: int| 0 <= w < gb.channel_order@.len() && gb.channel_order@[w] == c;
                            assert(g.channel_order@[w] == c);
                        }
                    }
                    assert(g.channel_order@.contains(ch_id)) by {
                        if !gb.channel_order@.contains(ch_id) {
                            assert(g.channel_order@[g.channel_order@.len() - 1] == ch_id);
                        }
                    }
                }
                state.cache.guilds.insert(guild.id, g);
            }
        }
        i = i + 1;
    }
}

/// The typing indicators of a channel (none if it has no entry).
pub open spec fn typing_of(c: DiscordCache, channel_id: u64) -> Seq<(u64, u64)> {
    if c.typing@.contains_key(channel_id) {
        c.typing@[channel_id]@
    } else {
        Seq::empty()
    }
}

/// The indicators still live at `now`: started less than the timeout ago (or in the future).
pub open spec fn live_typers(s: Seq<(u64, u64)>, now: u64) -> Seq<(u64, u64)> {
    s.filter(|e: (u64, u64)| (if now >= e.1 { now - e.1 } else { 0 }) < TYPING_TIMEOUT_MS)
}

/// The indicators after `user` starts typing at `now`: expired ones dropped, then the user's
/// first indicator restarted, or a new one added at the end.
pub open spec fn typing_after(s: Seq<(u64, u64)>, user: u64, now: u64) -> Seq<(u64, u64)> {
    let live = live_typers(s, now);
    if exists|i: int| 0 <= i < live.len() && live[i].0 == user {
        let i = choose|i: int|
            0 <= i < live.len() && live[i].0 == user && forall|j: int|
                0 <= j < i ==> live[j].0 != user;
        live.update(i, (user, now))
    } else {
        live.push((user, now))
    }
}

/// Records that `user_id` is typing in `channel_id` at `now_ms`.
fn note_typing(cache: &mut DiscordCache, channel_id: u64, user_id: u64, now_ms: u64)
    ensures
        final(cache).typing@ == old(cache).typing@.insert(channel_id, final(cache).typing@[channel_id]),
        final(cache).typing@[channel_id]@ == typing_after(typing_of(*old(cache), channel_id), user_id, now_ms),
        final(cache).guilds@ == old(cache).guilds@,
        final(cache).channels@ == old(cache).channels@,
        final(cache).users@ == old(cache).users@,
        final(cache).messages@ == old(cache).messages@,
{
    let typers = match cache.typing.remove(&channel_id) {
        Some(t) => t,
        None => Vec::new(),
    };
    let ghost s = typers@;
    assert(s == typing_of(*old(cache), channel_id));
    // Drop the expired indicators.
    let mut live: Vec<(u64, u64)> = Vec::new();
    let mut i: usize = 0;
    while i < typers.len()
        invariant
            s == typers@,
            i <= s.len(),
            live@ == live_typers(s.subrange(0, i as int), now_ms),
        decreases s.len() - i,
    {
        let e = typers[i];
        let age = if now_ms >= e.1 {
            now_ms - e.1
        } else {
            0
        };
        proof {
            let pre = s.subrange(0, i + 1);
            assert(pre.drop_last() =~= s.subrange(0, i as int));
            reveal(Seq::filter);
            assert(live_typers(pre, now_ms) == live_typers(pre.drop_last(), now_ms) + (if age
                < TYPING_TIMEOUT_MS {
                seq![e]
            } else {
                Seq::empty()
            })) by {
                assert(pre.last() == e);
            }
        }
        if age < TYPING_TIMEOUT_MS {
            live.push(e);
            assert(live@ =~= live_typers(s.subrange(0, i as int), now_ms) + seq![e]);
        } else {
            assert(live_typers(s.subrange(0, i as int), now_ms) + Seq::<(u64, u64)>::empty()
                =~= live_typers(s.subrange(0, i as int), now_ms));
        }
        i = i + 1;
    }
    assert(s.subrange(0, s.len() as int) =~= s);
    let ghost l = live@;
    // Restart the user's indicator, or add one.
    let mut k: usize = 0;
    while k < live.len() && live[k].0 != user_id
        invariant
            l == live@,
            k <= l.len(),
            forall|j: int| 0 <= j < k ==> l[j].0 != user_id,
        decreases l.len() - k,
    {
        k = k + 1;
    }
    if k < live.len() {
        live.set(k, (user_id, now_ms));
        proof {
            let i = choose|i: int| 0 <= i < l.len() && l[i].0 == user_id && forall|j: int| 0 <= j < i ==> l[j].0 != user_id;
            assert(l[k as int].0 == user_id);
            if i < k {
                assert(l[i].0 != user_id);
            }
            if k < i {
                assert(l[k as int].0 != user_id);
            }
            assert(i == k);
        }
    } else {
        live.push((user_id, now_ms));
    }
    cache.typing.insert(channel_id, live);
    proof {
        assert(cache.typing@ =~= old(cache).typing@.insert(channel_id, cache.typing@[channel_id]));
    }
}

/// Processes a result from a background worker; gives whether the screen must be redrawn.
pub fn handle_background_result(result: BackgroundResult, state: &mut AppState) -> (dirty: bool)
    ensures
        ui_unchanged(*old(state), *final(state)),
        final(state).connection == old(state).connection,
        final(state).current_user_id == old(state).current_user_id,
        final(state).status_message == old(state).status_message,
        !(result is HttpError) ==> final(state).status_error == old(state).status_error,
        match result {
            BackgroundResult::MessagesFetched { channel_id, messages } => dirty && final(state).cache.messages@[channel_id]@ == keep_oldest(
                messages@ + channel_messages(old(state).cache.messages@, channel_id),
            ),
            BackgroundResult::CachedMessages { channel_id, messages } => dirty == (channel_messages(
                old(state).cache.messages@,
                channel_id,
            ).len() == 0) && (dirty ==> final(state).cache.messages@[channel_id]@ == keep_oldest(
                messages@,
            )) && (!dirty ==> final(state).cache == old(state).cache),
            BackgroundResult::HttpError { error, .. } => dirty && opt_text(final(state).status_error)
                == Some("HTTP: "@ + error@) && final(state).cache == old(state).cache,
            _ => !dirty && final(state).cache == old(state).cache && final(state).status_error
                == old(state).status_error,
        },
{
    match result {
        BackgroundResult::MessagesFetched { channel_id, messages } => {
            state.cache.prepend_messages(channel_id, messages);
            true
        },
        BackgroundResult::CachedMessages { channel_id, messages } => {
            // Only use the stored copy when nothing is cached for the channel yet.
            let empty = match state.cache.messages.get(&channel_id) {
                Some(d) => d.len() == 0,
                None => true,
            };
            if empty {
                state.cache.prepend_messages(channel_id, messages);
                proof {
                    assert(channel_messages(old(state).cache.messages@, channel_id) =~= Seq::<
                        CachedMessage,
                    >::empty());
                    assert(messages@ + Seq::<CachedMessage>::empty() =~= messages@);
                }
                true
            } else {
                false
            }
        },
        BackgroundResult::HttpError { error, .. } => {
            state.status_error = Some(crate::text::concat_str("HTTP: ", error.as_str()));
            true
        },
        BackgroundResult::SessionLoaded { .. } => {
            // Restoring a layout from a stored session is not done here.
            false
        },
        BackgroundResult::DbError { .. } => false,
    }
}

/// No user has two indicators in a list of typing indicators.
pub open spec fn typers_distinct(s: Seq<(u64, u64)>) -> bool {
    forall|i: int, j: int| 0 <= i < j < s.len() ==> #[trigger] s[i].0 != #[trigger] s[j].0
}

proof fn lemma_filter_typers(s: Seq<(u64, u64)>, p: spec_fn((u64, u64)) -> bool)
    requires
        typers_distinct(s),
    ensures
        typers_distinct(s.filter(p)),
        forall|i: int| 0 <= i < s.filter(p).len() ==> s.contains(#[trigger] s.filter(p)[i]),
    decreases s.len(),
{
    reveal(Seq::filter);
    if s.len() > 0 {
        let rest = s.drop_last();
        assert(typers_distinct(rest)) by {
            assert forall|i: int, j: int| 0 <= i < j < rest.len() implies #[trigger] rest[i].0
                != #[trigger] rest[j].0 by {
                assert(rest[i] == s[i] && rest[j] == s[j]);
            }
        }
        lemma_filter_typers(rest, p);
        let f = rest.filter(p);
        assert forall|i: int| 0 <= i < f.len() implies s.contains(#[trigger] f[i]) by {
            let k = choose|k: int| 0 <= k < rest.len() && rest[k] == f[i];
            assert(s[k] == f[i]);
        }
        if p(s.last()) {
            let g = f.push(s.last());
            assert(s.filter(p) == g);
            assert forall|i: int| 0 <= i < g.len() implies s.contains(#[trigger] g[i]) by {
                if i < f.len() {
                    assert(g[i] == f[i]);
                } else {
                    assert(s[s.len() - 1] == g[i]);
                }
            }
            assert forall|i: int, j: int| 0 <= i < j < g.len() implies #[trigger] g[i].0
                != #[trigger] g[j].0 by {
                if j == f.len() {
                    assert(g[i] == f[i]);
                    assert(s.contains(f[i]));
                    let k = choose|k: int| 0 <= k < s.len() && s[k] == f[i];
                    assert(rest.contains(f[i]));
                    let k2 = choose|k2: int| 0 <= k2 < rest.len() && rest[k2] == f[i];
                    assert(s[k2] == f[i]);
                    assert(k2 < s.len() - 1);
                } else {
                    assert(g[i] == f[i] && g[j] == f[j]);
                }
            }
        }
    }
}

/// When a user starts typing at `now`, that user's indicator in the channel carries `now`:
/// the user has exactly one indicator and it is `(user, now)`. Every other indicator kept is
/// one the channel had and that has not expired, and no user has two indicators.
pub proof fn law_typing_restarts_indicator(s: Seq<(u64, u64)>, user: u64, now: u64)
    requires
        typers_distinct(s),
    ensures
        ({
            let r = typing_after(s, user, now);
            &&& exists|i: int| 0 <= i < r.len() && r[i] == (user, now)
            &&& forall|i: int| 0 <= i < r.len() && (#[trigger] r[i]).0 == user ==> r[i].1 == now
            &&& typers_distinct(r)
            &&& forall|i: int|
                0 <= i < r.len() && (#[trigger] r[i]).0 != user ==> s.contains(r[i]) && (if now
                    >= r[i].1 {
                    now - r[i].1
                } else {
                    0
                }) < TYPING_TIMEOUT_MS
        }),
{
    let p = |e: (u64, u64)| (if now >= e.1 { now - e.1 } else { 0 }) < TYPING_TIMEOUT_MS;
    let live = live_typers(s, now);
    assert(live == s.filter(p));
    lemma_filter_typers(s, p);
    s.filter_lemma(p);
    let r = typing_after(s, user, now);
    if exists|i: int| 0 <= i < live.len() && live[i].0 == user {
        let i = choose|i: int|
            0 <= i < live.len() && live[i].0 == user && forall|j: int|
                0 <= j < i ==> live[j].0 != user;
        assert(r == live.update(i, (user, now)));
        assert(r[i] == (user, now));
        assert forall|j: int| 0 <= j < r.len() && (#[trigger] r[j]).0 == user implies r[j].1 == now by {
            if j != i {
                assert(r[j] == live[j]);
                if j < i {
                    assert(live[j].0 != live[i].0);
                } else {
                    assert(live[i].0 != live[j].0);
                }
            }
        }
        assert forall|a: int, b: int| 0 <= a < b < r.len() implies #[trigger] r[a].0 != #[trigger] r[b].0 by {
            if a != i && b != i {
                assert(r[a] == live[a] && r[b] == live[b]);
            } else if a == i {
                assert(r[b] == live[b]);
                assert(live[a].0 != live[b].0);
            } else {
                assert(r[a] == live[a]);
                assert(live[a].0 != live[b].0);
            }
        }
        assert forall|j: int| 0 <= j < r.len() && (#[trigger] r[j]).0 != user implies s.contains(r[j])
            && (if now >= r[j].1 { now - r[j].1 } else { 0 }) < TYPING_TIMEOUT_MS by {
            assert(j != i);
            assert(r[j] == live[j]);
            assert(p(live[j]));
        }
    } else {
        assert(r == live.push((user, now)));
        assert(r[live.len() as int] == (user, now));
        assert forall|j: int| 0 <= j < r.len() && (#[trigger] r[j]).0 == user implies r[j].1 == now by {
            if j < live.len() {
                assert(r[j] == live[j]);
            }
        }
        assert forall|a: int, b: int| 0 <= a < b < r.len() implies #[trigger] r[a].0 != #[trigger] r[b].0 by {
            assert(r[a] == live[a]);
            if b < live.len() {
                assert(r[b] == live[b]);
            }
        }
        assert forall|j: int| 0 <= j < r.len() && (#[trigger] r[j]).0 != user implies s.contains(r[j])
            && (if now >= r[j].1 { now - r[j].1 } else { 0 }) < TYPING_TIMEOUT_MS by {
            assert(j < live.len());
            assert(r[j] == live[j]);
            assert(p(live[j]));
        }
    }
}

} // verus!
