use std::collections::{HashMap, VecDeque};
use vstd::prelude::*;

use crate::text::{concat_str, decimal, decimal_string};
use crate::types::{
    CachedChannel, CachedGuild, CachedMessage, CachedRole, CachedUser, ReadState,
    MAX_CACHED_MESSAGES_PER_CHANNEL,
};

verus! {

broadcast use vstd::std_specs::hash::group_hash_axioms;

/// The last `MAX_CACHED_MESSAGES_PER_CHANNEL` messages of `s` (all of them if fewer).
pub open spec fn keep_newest(s: Seq<CachedMessage>) -> Seq<CachedMessage> {
    if s.len() > MAX_CACHED_MESSAGES_PER_CHANNEL {
        s.skip(s.len() - MAX_CACHED_MESSAGES_PER_CHANNEL)
    } else {
        s
    }
}

/// The first `MAX_CACHED_MESSAGES_PER_CHANNEL` messages of `s` (all of them if fewer).
pub open spec fn keep_oldest(s: Seq<CachedMessage>) -> Seq<CachedMessage> {
    if s.len() > MAX_CACHED_MESSAGES_PER_CHANNEL {
        s.take(MAX_CACHED_MESSAGES_PER_CHANNEL as int)
    } else {
        s
    }
}

/// The messages cached for a channel (none if the channel has no entry).
pub open spec fn channel_messages(m: Map<u64, VecDeque<CachedMessage>>, channel_id: u64) -> Seq<
    CachedMessage,
> {
    if m.contains_key(channel_id) {
        m[channel_id]@
    } else {
        Seq::empty()
    }
}

/// Whether `i` is the first position of a message with id `message_id`.
pub open spec fn is_first_message(s: Seq<CachedMessage>, message_id: u64, i: int) -> bool {
    &&& 0 <= i < s.len()
    &&& s[i].id == message_id
    &&& forall|j: int| 0 <= j < i ==> s[j].id != message_id
}

/// `s` with every occurrence of `x` removed.
pub open spec fn without(s: Seq<u64>, x: u64) -> Seq<u64>
    decreases s.len(),
{
    if s.len() == 0 {
        s
    } else if s.last() == x {
        without(s.drop_last(), x)
    } else {
        without(s.drop_last(), x).push(s.last())
    }
}

/// `order` with `id` appended unless it is already there.
pub open spec fn append_new(order: Seq<u64>, id: u64) -> Seq<u64> {
    if order.contains(id) {
        order
    } else {
        order.push(id)
    }
}

/// Appending an id keeps every id that was there, and holds the appended one.
pub proof fn lemma_append_new_keeps(order: Seq<u64>, id: u64, c: u64)
    ensures
        order.contains(c) ==> append_new(order, id).contains(c),
        append_new(order, id).contains(id),
{
    if !order.contains(id) {
        let p = order.push(id);
        assert(p[p.len() - 1] == id);
        if order.contains(c) {
            let w = choose|w: int| 0 <= w < order.len() && order[w] == c;
            assert(p[w] == c);
        }
    }
}

/// The channel → guild lookup after inserting guild `id` whose channels are `new_order`:
/// channels listed by the previous data of that guild (`old_order`) and no longer listed lose
/// their entry; every listed channel maps to `id`; other entries stay.
pub open spec fn channel_guild_after_insert(
    m: Map<u64, u64>,
    old_order: Option<Seq<u64>>,
    new_order: Seq<u64>,
    id: u64,
) -> Map<u64, u64> {
    Map::new(
        |k: u64|
            new_order.contains(k) || (m.contains_key(k) && !(old_order matches Some(o) && o.contains(
                k,
            ) && !new_order.contains(k))),
        |k: u64|
            if new_order.contains(k) {
                id
            } else {
                m[k]
            },
    )
}

/// In-memory cache of Discord state, keyed by snowflake ids.
#[derive(Debug, Clone)]
pub struct DiscordCache {
    pub guilds: HashMap<u64, CachedGuild>,
    pub channels: HashMap<u64, CachedChannel>,
    pub users: HashMap<u64, CachedUser>,
    /// Guild ids in the order the sidebar lists them.
    pub guild_order: Vec<u64>,
    /// Per-channel message windows, oldest first.
    pub messages: HashMap<u64, VecDeque<CachedMessage>>,
    /// Per-channel typing indicators: (user id, started at in milliseconds).
    pub typing: HashMap<u64, Vec<(u64, u64)>>,
    /// Channel → guild reverse lookup.
    pub channel_guild: HashMap<u64, u64>,
    /// Unread state per channel.
    pub read_states: HashMap<u64, ReadState>,
    /// Direct-message channels from the READY event.
    pub dm_channels: Vec<u64>,
}

/// Whether `n` is `o` apart from the message windows.
pub open spec fn only_messages_changed(o: DiscordCache, n: DiscordCache) -> bool {
    &&& n.guilds@ == o.guilds@
    &&& n.channels@ == o.channels@
    &&& n.users@ == o.users@
    &&& n.guild_order@ == o.guild_order@
    &&& n.typing@ == o.typing@
    &&& n.channel_guild@ == o.channel_guild@
    &&& n.read_states@ == o.read_states@
    &&& n.dm_channels@ == o.dm_channels@
}

/// Whether `n` is `o` with the first message `message_id` of channel `channel_id` given
/// `content` and the edit time `edited`, its rendered lines dropped; when the channel holds no
/// such message, nothing changes.
pub open spec fn message_edited(
    o: DiscordCache,
    n: DiscordCache,
    channel_id: u64,
    message_id: u64,
    content: String,
    edited: Option<String>,
) -> bool {
    let s = channel_messages(o.messages@, channel_id);
    &&& if exists|i: int| is_first_message(s, message_id, i) {
        let i = choose|i: int| is_first_message(s, message_id, i);
        &&& n.messages@ == o.messages@.insert(channel_id, n.messages@[channel_id])
        &&& n.messages@[channel_id]@ == s.update(
            i,
            CachedMessage { content, edited_timestamp: edited, rendered: None, ..s[i] },
        )
    } else {
        n.messages@ == o.messages@
    }
    &&& only_messages_changed(o, n)
}

/// Whether `n` is `o` without the first message `message_id` of channel `channel_id`; when the
/// channel holds no such message, nothing changes.
pub open spec fn message_deleted(o: DiscordCache, n: DiscordCache, channel_id: u64, message_id: u64) -> bool {
    let s = channel_messages(o.messages@, channel_id);
    &&& if exists|i: int| is_first_message(s, message_id, i) {
        let i = choose|i: int| is_first_message(s, message_id, i);
        &&& n.messages@ == o.messages@.insert(channel_id, n.messages@[channel_id])
        &&& n.messages@[channel_id]@ == s.remove(i)
    } else {
        n.messages@ == o.messages@
    }
    &&& only_messages_changed(o, n)
}

/// Whether `n` is `o` with `channel` added or replaced: a guild channel gets its guild lookup
/// and is appended to its cached guild's channel order unless already there.
pub open spec fn channel_inserted(o: DiscordCache, n: DiscordCache, channel: CachedChannel) -> bool {
    &&& n.channels@ == o.channels@.insert(channel.id, channel)
    &&& n.channel_guild@ == match channel.guild_id {
        Some(g) => o.channel_guild@.insert(channel.id, g),
        None => o.channel_guild@,
    }
    &&& n.guilds@.dom() == o.guilds@.dom()
    &&& forall|g: u64|
        #[trigger] n.guilds@.contains_key(g) ==> if channel.guild_id == Some(g) {
            n.guilds@[g] == CachedGuild { channel_order: n.guilds@[g].channel_order, ..o.guilds@[g] }
                && n.guilds@[g].channel_order@ == append_new(o.guilds@[g].channel_order@, channel.id)
        } else {
            n.guilds@[g] == o.guilds@[g]
        }
    &&& n.guild_order@ == o.guild_order@
    &&& n.users@ == o.users@
    &&& n.messages@ == o.messages@
    &&& n.typing@ == o.typing@
    &&& n.read_states@ == o.read_states@
    &&& n.dm_channels@ == o.dm_channels@
}

/// Whether `n` is `o` without channel `channel_id`: its guild lookup, messages, typing and read
/// state go, and it leaves its guild's channel order.
pub open spec fn channel_removed(o: DiscordCache, n: DiscordCache, channel_id: u64) -> bool {
    &&& n.channels@ == o.channels@.remove(channel_id)
    &&& n.channel_guild@ == o.channel_guild@.remove(channel_id)
    &&& n.messages@ == o.messages@.remove(channel_id)
    &&& n.typing@ == o.typing@.remove(channel_id)
    &&& n.read_states@ == o.read_states@.remove(channel_id)
    &&& n.guilds@.dom() == o.guilds@.dom()
    &&& forall|g: u64|
        #[trigger] n.guilds@.contains_key(g) ==> if o.channel_guild@.contains_key(channel_id)
            && o.channel_guild@[channel_id] == g {
            n.guilds@[g] == CachedGuild { channel_order: n.guilds@[g].channel_order, ..o.guilds@[g] }
                && n.guilds@[g].channel_order@ == without(o.guilds@[g].channel_order@, channel_id)
        } else {
            n.guilds@[g] == o.guilds@[g]
        }
    &&& n.guild_order@ == o.guild_order@
    &&& n.users@ == o.users@
    &&& n.dm_channels@ == o.dm_channels@
}

/// Whether `n` is `o` without guild `guild_id`: every channel it lists goes with its lookups,
/// messages, typing and read state, and the guild leaves the guild order.
pub open spec fn guild_removed(o: DiscordCache, n: DiscordCache, guild_id: u64) -> bool {
    let listed = if o.guilds@.contains_key(guild_id) {
        o.guilds@[guild_id].channel_order@.to_set()
    } else {
        Set::<u64>::empty()
    };
    &&& n.guilds@ == o.guilds@.remove(guild_id)
    &&& n.channels@ == o.channels@.remove_keys(listed)
    &&& n.channel_guild@ == o.channel_guild@.remove_keys(listed)
    &&& n.messages@ == o.messages@.remove_keys(listed)
    &&& n.typing@ == o.typing@.remove_keys(listed)
    &&& n.read_states@ == o.read_states@.remove_keys(listed)
    &&& n.guild_order@ == without(o.guild_order@, guild_id)
    &&& n.users@ == o.users@
    &&& n.dm_channels@ == o.dm_channels@
}

impl Default for DiscordCache {
    fn default() -> (c: Self)
        ensures
            c.is_empty(),
    {
        DiscordCache::new()
    }
}

/// "Unknown(<id>)".
pub open spec fn unknown_name(id: u64) -> Seq<char> {
    "Unknown("@ + decimal(id as nat) + ")"@
}

fn unknown(id: u64) -> (r: String)
    ensures
        r@ == unknown_name(id),
{
    let digits = decimal_string(id);
    let with_prefix = concat_str("Unknown(", digits.as_str());
    concat_str(with_prefix.as_str(), ")")
}

impl DiscordCache {
    /// Nothing is cached.
    pub open spec fn is_empty(&self) -> bool {
        &&& self.guilds@ == Map::<u64, CachedGuild>::empty()
        &&& self.channels@ == Map::<u64, CachedChannel>::empty()
        &&& self.users@ == Map::<u64, CachedUser>::empty()
        &&& self.guild_order@ == Seq::<u64>::empty()
        &&& self.messages@ == Map::<u64, VecDeque<CachedMessage>>::empty()
        &&& self.typing@ == Map::<u64, Vec<(u64, u64)>>::empty()
        &&& self.channel_guild@ == Map::<u64, u64>::empty()
        &&& self.read_states@ == Map::<u64, ReadState>::empty()
        &&& self.dm_channels@ == Seq::<u64>::empty()
    }

    /// Every channel holds at most `MAX_CACHED_MESSAGES_PER_CHANNEL` messages.
    pub open spec fn within_capacity(&self) -> bool {
        forall|c: u64|
            #[trigger] self.messages@.contains_key(c) ==> self.messages@[c]@.len()
                <= MAX_CACHED_MESSAGES_PER_CHANNEL
    }

    /// An empty cache.
    pub fn new() -> (c: Self)
        ensures
            c.is_empty(),
    {
        DiscordCache {
            guilds: HashMap::new(),
            channels: HashMap::new(),
            users: HashMap::new(),
            guild_order: Vec::new(),
            messages: HashMap::new(),
            typing: HashMap::new(),
            channel_guild: HashMap::new(),
            read_states: HashMap::new(),
            dm_channels: Vec::new(),
        }
    }

    /// The user's display name, else their username, else "Unknown(<id>)".
    pub fn resolve_user_name(&self, id: u64) -> (r: String)
        ensures
            r@ == if self.users@.contains_key(id) {
                match self.users@[id].display_name {
                    Some(d) => d@,
                    None => self.users@[id].name@,
                }
            } else {
                unknown_name(id)
            },
    {
        match self.users.get(&id) {
            Some(u) => match &u.display_name {
                Some(d) => d.clone(),
                None => u.name.clone(),
            },
            None => unknown(id),
        }
    }

    /// The channel's name, else "Unknown(<id>)".
    pub fn resolve_channel_name(&self, id: u64) -> (r: String)
        ensures
            r@ == if self.channels@.contains_key(id) {
                self.channels@[id].name@
            } else {
                unknown_name(id)
            },
    {
        match self.channels.get(&id) {
            Some(c) => c.name.clone(),
            None => unknown(id),
        }
    }

    /// The cached role `role_id` of guild `guild_id`.
    pub fn resolve_role(&self, guild_id: u64, role_id: u64) -> (r: Option<&CachedRole>)
        ensures
            r == if self.guilds@.contains_key(guild_id) && self.guilds@[guild_id].roles@.contains_key(
                role_id,
            ) {
                Some(&self.guilds@[guild_id].roles@[role_id])
            } else {
                None
            },
    {
        match self.guilds.get(&guild_id) {
            Some(g) => g.roles.get(&role_id),
            None => None,
        }
    }

    fn take_messages(&mut self, channel_id: u64) -> (d: VecDeque<CachedMessage>)
        ensures
            d@ == channel_messages(old(self).messages@, channel_id),
            old(self).messages@.contains_key(channel_id) ==> d == old(self).messages@[channel_id],
            final(self).messages@ == old(self).messages@.remove(channel_id),
            final(self).guilds@ == old(self).guilds@,
            final(self).channels@ == old(self).channels@,
            final(self).users@ == old(self).users@,
            final(self).guild_order@ == old(self).guild_order@,
            final(self).typing@ == old(self).typing@,
            final(self).channel_guild@ == old(self).channel_guild@,
            final(self).read_states@ == old(self).read_states@,
            final(self).dm_channels@ == old(self).dm_channels@,
    {
        match self.messages.remove(&channel_id) {
            Some(d) => d,
            None => VecDeque::new(),
        }
    }

    /// Appends a message to its channel's window, evicting the oldest beyond capacity.
    pub fn insert_message(&mut self, msg: CachedMessage)
        ensures
            final(self).messages@ == old(self).messages@.insert(
                msg.channel_id,
                final(self).messages@[msg.channel_id],
            ),
            final(self).messages@[msg.channel_id]@ == keep_newest(
                channel_messages(old(self).messages@, msg.channel_id).push(msg),
            ),
            old(self).within_capacity() ==> final(self).within_capacity(),
            final(self).guilds@ == old(self).guilds@,
            final(self).channels@ == old(self).channels@,
            final(self).users@ == old(self).users@,
            final(self).guild_order@ == old(self).guild_order@,
            final(self).typing@ == old(self).typing@,
            final(self).channel_guild@ == old(self).channel_guild@,
            final(self).read_states@ == old(self).read_states@,
            final(self).dm_channels@ == old(self).dm_channels@,
    {
        let channel_id = msg.channel_id;
        let mut deque = self.take_messages(channel_id);
        let ghost full = deque@.push(msg);
        deque.push_back(msg);
        proof {
            assert(full.skip(0) =~= full);
        }
        while deque.len() > MAX_CACHED_MESSAGES_PER_CHANNEL
            invariant
                deque@.len() <= full.len(),
                full.len() > MAX_CACHED_MESSAGES_PER_CHANNEL ==> deque@.len()
                    >= MAX_CACHED_MESSAGES_PER_CHANNEL,
                full.len() <= MAX_CACHED_MESSAGES_PER_CHANNEL ==> deque@.len() == full.len(),
                deque@ == full.skip(full.len() - deque@.len()),
            decreases deque@.len(),
        {
            deque.pop_front();
            proof {
                assert(deque@ =~= full.skip(full.len() - deque@.len()));
            }
        }
        proof {
            if full.len() <= MAX_CACHED_MESSAGES_PER_CHANNEL {
                assert(deque@ =~= full);
            }
        }
        self.messages.insert(channel_id, deque);
        proof {
            assert(self.messages@ =~= old(self).messages@.insert(channel_id, self.messages@[channel_id]));
        }
    }

    /// Puts older messages (oldest first) in front of a channel's window, evicting the newest
    /// beyond capacity.
    pub fn prepend_messages(&mut self, channel_id: u64, messages: Vec<CachedMessage>)
        ensures
            final(self).messages@ == old(self).messages@.insert(
                channel_id,
                final(self).messages@[channel_id],
            ),
            final(self).messages@[channel_id]@ == keep_oldest(
                messages@ + channel_messages(old(self).messages@, channel_id),
            ),
            old(self).within_capacity() ==> final(self).within_capacity(),
            final(self).guilds@ == old(self).guilds@,
            final(self).channels@ == old(self).channels@,
            final(self).users@ == old(self).users@,
            final(self).guild_order@ == old(self).guild_order@,
            final(self).typing@ == old(self).typing@,
            final(self).channel_guild@ == old(self).channel_guild@,
            final(self).read_states@ == old(self).read_states@,
            final(self).dm_channels@ == old(self).dm_channels@,
    {
        let mut deque = self.take_messages(channel_id);
        let ghost existing = deque@;
        let mut messages = messages;
        let ghost all = messages@;
        while messages.len() > 0
            invariant
                all == messages@ + all.skip(messages@.len() as int),
                deque@ == all.skip(messages@.len() as int) + existing,
                messages@.len() <= all.len(),
            decreases messages@.len(),
        {
            let m = messages.pop().unwrap();
            deque.push_front(m);
            proof {
                assert(all.skip(messages@.len() as int) =~= seq![m] + all.skip(
                    messages@.len() + 1int,
                ));
            }
        }
        proof {
            assert(all.skip(0) =~= all);
        }
        if deque.len() > MAX_CACHED_MESSAGES_PER_CHANNEL {
            deque.truncate(MAX_CACHED_MESSAGES_PER_CHANNEL);
        }
        self.messages.insert(channel_id, deque);
        proof {
            assert(self.messages@ =~= old(self).messages@.insert(channel_id, self.messages@[channel_id]));
        }
    }

    /// Replaces the content and edit time of a cached message (the first with that id) and
    /// drops its rendered lines. Returns whether it was found.
    pub fn update_message(
        &mut self,
        channel_id: u64,
        message_id: u64,
        content: String,
        edited_timestamp: Option<String>,
    ) -> (r: bool)
        ensures
            r == exists|i: int|
                is_first_message(channel_messages(old(self).messages@, channel_id), message_id, i),
            message_edited(*old(self), *final(self), channel_id, message_id, content, edited_timestamp),
    {
        if !self.messages.contains_key(&channel_id) {
            return false;
        }
        let mut deque = self.take_messages(channel_id);
        match find_message(&deque, message_id) {
            Some(pos) => {
                let ghost s = deque@;
                let msg = deque.remove(pos).unwrap();
                let updated = CachedMessage { content, edited_timestamp, rendered: None, ..msg };
                deque.insert(pos, updated);
                proof {
                    assert(deque@ =~= s.update(pos as int, updated));
                }
                self.messages.insert(channel_id, deque);
                proof {
                    assert(self.messages@ =~= old(self).messages@.insert(
                        channel_id,
                        self.messages@[channel_id],
                    ));
                }
                true
            },
            None => {
                self.messages.insert(channel_id, deque);
                proof {
                    assert(self.messages@ =~= old(self).messages@);
                }
                false
            },
        }
    }

    /// Deletes a cached message (the first with that id). Returns whether it was found.
    pub fn delete_message(&mut self, channel_id: u64, message_id: u64) -> (r: bool)
        ensures
            r == exists|i: int|
                is_first_message(channel_messages(old(self).messages@, channel_id), message_id, i),
            message_deleted(*old(self), *final(self), channel_id, message_id),
    {
        if !self.messages.contains_key(&channel_id) {
            return false;
        }
        let mut deque = self.take_messages(channel_id);
        match find_message(&deque, message_id) {
            Some(pos) => {
                deque.remove(pos);
                self.messages.insert(channel_id, deque);
                proof {
                    assert(self.messages@ =~= old(self).messages@.insert(
                        channel_id,
                        self.messages@[channel_id],
                    ));
                }
                true
            },
            None => {
                self.messages.insert(channel_id, deque);
                proof {
                    assert(self.messages@ =~= old(self).messages@);
                }
                false
            },
        }
    }

    /// The message window of a channel, if it has one.
    pub fn get_messages(&self, channel_id: u64) -> (r: Option<&VecDeque<CachedMessage>>)
        ensures
            r == if self.messages@.contains_key(channel_id) {
                Some(&self.messages@[channel_id])
            } else {
                None
            },
    {
        self.messages.get(&channel_id)
    }
}

/// The first position of a message with the given id.
fn find_message(d: &VecDeque<CachedMessage>, message_id: u64) -> (r: Option<usize>)
    ensures
        match r {
            Some(i) => is_first_message(d@, message_id, i as int) && (choose|k: int|
                is_first_message(d@, message_id, k)) == i,
            None => !exists|k: int| is_first_message(d@, message_id, k),
        },
{
    let mut i: usize = 0;
    while i < d.len()
        invariant
            i <= d@.len(),
            forall|j: int| 0 <= j < i ==> d@[j].id != message_id,
        decreases d@.len() - i,
    {
        if d[i].id == message_id {
            proof {
                assert(is_first_message(d@, message_id, i as int));
                let k = choose|k: int| is_first_message(d@, message_id, k);
                assert(k == i) by {
                    if k < i {
                        assert(d@[k].id != message_id);
                    }
                    if i < k {
                        assert(d@[i as int].id != message_id);
                    }
                }
            }
            return Some(i);
        }
        i = i + 1;
    }
    None
}


/// Whether `v` holds `x`.
pub fn vec_contains(v: &Vec<u64>, x: u64) -> (r: bool)
    ensures
        r == v@.contains(x),
{
    let mut i: usize = 0;
    while i < v.len()
        invariant
            i <= v.len(),
            forall|j: int| 0 <= j < i ==> v@[j] != x,
        decreases v.len() - i,
    {
        if v[i] == x {
            assert(v@[i as int] == x);
            return true;
        }
        i = i + 1;
    }
    false
}

/// `v` without any occurrence of `x`.
fn retain_other(v: &Vec<u64>, x: u64) -> (r: Vec<u64>)
    ensures
        r@ == without(v@, x),
{
    let mut out: Vec<u64> = Vec::new();
    let mut i: usize = 0;
    while i < v.len()
        invariant
            i <= v.len(),
            out@ == without(v@.take(i as int), x),
        decreases v.len() - i,
    {
        proof {
            assert(v@.take(i + 1).drop_last() =~= v@.take(i as int));
        }
        if v[i] != x {
            out.push(v[i]);
        }
        i = i + 1;
    }
    assert(v@.take(v@.len() as int) =~= v@);
    out
}

/// What `without` keeps: exactly the elements other than `x`.
pub proof fn lemma_without_contains(s: Seq<u64>, x: u64, y: u64)
    ensures
        without(s, x).contains(y) <==> s.contains(y) && y != x,
    decreases s.len(),
{
    if s.len() > 0 {
        lemma_without_contains(s.drop_last(), x, y);
        let w = without(s.drop_last(), x);
        if s.last() != x {
            vstd::seq_lib::lemma_seq_contains_after_push(w, s.last(), y);
        }
        assert(s =~= s.drop_last().push(s.last()));
        vstd::seq_lib::lemma_seq_contains_after_push(s.drop_last(), s.last(), y);
    }
}

impl DiscordCache {
    /// Adds or replaces a guild: channels its previous data listed but this one does not
    /// lose their guild lookup, every listed channel maps to it, and it is appended to the
    /// guild order unless already there.
    pub fn insert_guild(&mut self, guild: CachedGuild)
        ensures
            final(self).guilds@ == old(self).guilds@.insert(guild.id, guild),
            final(self).guild_order@ == append_new(old(self).guild_order@, guild.id),
            final(self).channel_guild@ == channel_guild_after_insert(
                old(self).channel_guild@,
                if old(self).guilds@.contains_key(guild.id) {
                    Some(old(self).guilds@[guild.id].channel_order@)
                } else {
                    None
                },
                guild.channel_order@,
                guild.id,
            ),
            final(self).channels@ == old(self).channels@,
            final(self).users@ == old(self).users@,
            final(self).messages@ == old(self).messages@,
            final(self).typing@ == old(self).typing@,
            final(self).read_states@ == old(self).read_states@,
            final(self).dm_channels@ == old(self).dm_channels@,
    {
        let id = guild.id;
        let ghost m0 = self.channel_guild@;
        let ghost old_order: Option<Seq<u64>> = if self.guilds@.contains_key(id) {
            Some(self.guilds@[id].channel_order@)
        } else {
            None
        };
        let ghost new_order = guild.channel_order@;
        let ghost stale = Map::new(
            |k: u64|
                m0.contains_key(k) && !(old_order matches Some(o) && o.contains(k)
                    && !new_order.contains(k)),
            |k: u64| m0[k],
        );
        match self.guilds.get(&id) {
            Some(old_guild) => {
                let mut i: usize = 0;
                while i < old_guild.channel_order.len()
                    invariant
                        old_order == Some(old_guild.channel_order@),
                        self.guilds@ == old(self).guilds@,
                        self.guild_order@ == old(self).guild_order@,
                        self.channels@ == old(self).channels@,
                        self.users@ == old(self).users@,
                        self.messages@ == old(self).messages@,
                        self.typing@ == old(self).typing@,
                        self.read_states@ == old(self).read_states@,
                        self.dm_channels@ == old(self).dm_channels@,
                        new_order == guild.channel_order@,
                        i <= old_guild.channel_order@.len(),
                        forall|k: u64|
                            #[trigger] self.channel_guild@.contains_key(k) <==> m0.contains_key(k)
                                && !(old_guild.channel_order@.take(i as int).contains(k)
                                && !new_order.contains(k)),
                        forall|k: u64|
                            #[trigger] self.channel_guild@.contains_key(k) ==> self.channel_guild@[k]
                                == m0[k],
                    decreases old_guild.channel_order@.len() - i,
                {
                    let old_ch_id = old_guild.channel_order[i];
                    proof {
                        let t = old_guild.channel_order@.take(i as int);
                        let t1 = old_guild.channel_order@.take(i + 1);
                        assert(t1 =~= t.push(old_ch_id));
                        assert forall|k: u64| t1.contains(k) <==> t.contains(k) || k == old_ch_id by {
                            vstd::seq_lib::lemma_seq_contains_after_push(t, old_ch_id, k);
                        }
                    }
                    if !vec_contains(&guild.channel_order, old_ch_id) {
                        self.channel_guild.remove(&old_ch_id);
                    }
                    i = i + 1;
                }
                proof {
                    assert(old_guild.channel_order@.take(i as int) =~= old_guild.channel_order@);
                }
            },
            None => {},
        }
        assert(self.channel_guild@ =~= stale);
        let mut j: usize = 0;
        while j < guild.channel_order.len()
            invariant
                new_order == guild.channel_order@,
                j <= guild.channel_order@.len(),
                self.guilds@ == old(self).guilds@,
                self.guild_order@ == old(self).guild_order@,
                self.channels@ == old(self).channels@,
                self.users@ == old(self).users@,
                self.messages@ == old(self).messages@,
                self.typing@ == old(self).typing@,
                self.read_states@ == old(self).read_states@,
                self.dm_channels@ == old(self).dm_channels@,

                self.channel_guild@ == Map::new(
                    |k: u64| new_order.take(j as int).contains(k) || stale.contains_key(k),
                    |k: u64|
                        if new_order.take(j as int).contains(k) {
                            id
                        } else {
                            stale[k]
                        },
                ),
            decreases guild.channel_order@.len() - j,
        {
            let ch_id = guild.channel_order[j];
            proof {
                let t = new_order.take(j as int);
                let t1 = new_order.take(j + 1);
                assert(t1 =~= t.push(ch_id));
                assert forall|k: u64| t1.contains(k) <==> t.contains(k) || k == ch_id by {
                    vstd::seq_lib::lemma_seq_contains_after_push(t, ch_id, k);
                }
            }
            self.channel_guild.insert(ch_id, id);
            j = j + 1;
            proof {
                assert(self.channel_guild@ =~= Map::new(
                    |k: u64| new_order.take(j as int).contains(k) || stale.contains_key(k),
                    |k: u64|
                        if new_order.take(j as int).contains(k) {
                            id
                        } else {
                            stale[k]
                        },
                ));
            }
        }
        proof {
            assert(new_order.take(j as int) =~= new_order);
            assert(self.channel_guild@ =~= channel_guild_after_insert(m0, old_order, new_order, id));
        }
        self.guilds.insert(id, guild);
        if !vec_contains(&self.guild_order, id) {
            self.guild_order.push(id);
        }
    }

    /// Adds or replaces a channel. A guild channel gets a guild lookup entry and is appended
    /// to its cached guild's channel order unless already there.
    pub fn insert_channel(&mut self, channel: CachedChannel)
        ensures
            channel_inserted(*old(self), *final(self), channel),
    {
        let id = channel.id;
        let ghost ch = channel;
        if let Some(guild_id) = channel.guild_id {
            self.channel_guild.insert(id, guild_id);
            if let Some(mut guild) = self.guilds.remove(&guild_id) {
                let ghost before = guild;
                if !vec_contains(&guild.channel_order, id) {
                    guild.channel_order.push(id);
                }
                assert(guild == CachedGuild { channel_order: guild.channel_order, ..before });
                self.guilds.insert(guild_id, guild);
                proof {
                    assert(self.guilds@.dom() =~= old(self).guilds@.dom());
                }
            }
        }
        self.channels.insert(id, channel);
        proof {
            assert(self.channels@ =~= old(self).channels@.insert(id, ch));
            assert(self.guilds@.dom() =~= old(self).guilds@.dom());
            match ch.guild_id {
                Some(g) => assert(self.channel_guild@ =~= old(self).channel_guild@.insert(id, g)),
                None => assert(self.channel_guild@ =~= old(self).channel_guild@),
            }
        }
    }

    /// Removes a channel with its guild lookup, messages, typing and read state, and drops
    /// it from its guild's channel order.
    pub fn remove_channel(&mut self, channel_id: u64)
        ensures
            channel_removed(*old(self), *final(self), channel_id),
    {
        self.channels.remove(&channel_id);
        if let Some(guild_id) = self.channel_guild.remove(&channel_id) {
            if let Some(mut guild) = self.guilds.remove(&guild_id) {
                let ghost before = guild;
                guild.channel_order = retain_other(&guild.channel_order, channel_id);
                assert(guild == CachedGuild { channel_order: guild.channel_order, ..before });
                self.guilds.insert(guild_id, guild);
                proof {
                    assert(self.guilds@.dom() =~= old(self).guilds@.dom());
                }
            }
        }
        self.messages.remove(&channel_id);
        self.typing.remove(&channel_id);
        self.read_states.remove(&channel_id);
        proof {
            assert(self.channels@ =~= old(self).channels@.remove(channel_id));
            assert(self.channel_guild@ =~= old(self).channel_guild@.remove(channel_id));
            assert(self.messages@ =~= old(self).messages@.remove(channel_id));
            assert(self.typing@ =~= old(self).typing@.remove(channel_id));
            assert(self.read_states@ =~= old(self).read_states@.remove(channel_id));
            assert(self.guilds@.dom() =~= old(self).guilds@.dom());
        }
    }

    /// Removes a guild, every channel it lists (with their lookups, messages, typing and read
    /// state), and its place in the guild order.
    pub fn remove_guild(&mut self, guild_id: u64)
        ensures
            guild_removed(*old(self), *final(self), guild_id),
    {
        let ghost c0 = self.channels@;
        let ghost g0 = self.channel_guild@;
        let ghost m0 = self.messages@;
        let ghost t0 = self.typing@;
        let ghost r0 = self.read_states@;
        if let Some(guild) = self.guilds.remove(&guild_id) {
            let order = &guild.channel_order;
            let mut i: usize = 0;
            while i < order.len()
                invariant
                    i <= order@.len(),
                    self.guilds@ == old(self).guilds@.remove(guild_id),
                    self.guild_order@ == old(self).guild_order@,
                    self.users@ == old(self).users@,
                    self.dm_channels@ == old(self).dm_channels@,
                    self.channels@ == c0.remove_keys(order@.take(i as int).to_set()),
                    self.channel_guild@ == g0.remove_keys(order@.take(i as int).to_set()),
                    self.messages@ == m0.remove_keys(order@.take(i as int).to_set()),
                    self.typing@ == t0.remove_keys(order@.take(i as int).to_set()),
                    self.read_states@ == r0.remove_keys(order@.take(i as int).to_set()),
                decreases order@.len() - i,
            {
                let ch_id = order[i];
                proof {
                    let t = order@.take(i as int);
                    let t1 = order@.take(i + 1);
                    assert(t1 =~= t.push(ch_id));
                    assert(t1.to_set() =~= t.to_set().insert(ch_id)) by {
                        assert forall|k: u64| t1.to_set().contains(k) <==> t.to_set().insert(ch_id).contains(k) by {
                            vstd::seq_lib::lemma_seq_contains_after_push(t, ch_id, k);
                        }
                    }
                }
                self.channels.remove(&ch_id);
                self.channel_guild.remove(&ch_id);
                self.messages.remove(&ch_id);
                self.typing.remove(&ch_id);
                self.read_states.remove(&ch_id);
                i = i + 1;
                proof {
                    let s = order@.take(i as int).to_set();
                    assert(self.channels@ =~= c0.remove_keys(s));
                    assert(self.channel_guild@ =~= g0.remove_keys(s));
                    assert(self.messages@ =~= m0.remove_keys(s));
                    assert(self.typing@ =~= t0.remove_keys(s));
                    assert(self.read_states@ =~= r0.remove_keys(s));
                }
            }
            proof {
                assert(order@.take(i as int) =~= order@);
            }
        } else {
            proof {
                let e = Set::<u64>::empty();
                assert(c0.remove_keys(e) =~= c0);
                assert(g0.remove_keys(e) =~= g0);
                assert(m0.remove_keys(e) =~= m0);
                assert(t0.remove_keys(e) =~= t0);
                assert(r0.remove_keys(e) =~= r0);
            }
        }
        self.guild_order = retain_other(&self.guild_order, guild_id);
    }
}

/// A channel's message window never exceeds capacity: appending keeps the newest messages
/// (the appended one last), prepending history keeps the oldest (the history first).
pub proof fn law_message_window_bounded(s: Seq<CachedMessage>, msg: CachedMessage, history: Seq<CachedMessage>)
    ensures
        keep_newest(s.push(msg)).len() <= MAX_CACHED_MESSAGES_PER_CHANNEL,
        keep_newest(s.push(msg)).last() == msg,
        keep_oldest(history + s).len() <= MAX_CACHED_MESSAGES_PER_CHANNEL,
        history.len() <= MAX_CACHED_MESSAGES_PER_CHANNEL ==> keep_oldest(history + s).take(
            history.len() as int,
        ) == history,
{
    let t = s.push(msg);
    if t.len() > MAX_CACHED_MESSAGES_PER_CHANNEL {
        assert(keep_newest(t).last() == t.last());
    }
    let u = history + s;
    if history.len() <= MAX_CACHED_MESSAGES_PER_CHANNEL {
        assert(keep_oldest(u).take(history.len() as int) =~= history);
    }
}

/// Inserting a guild into an order without duplicates keeps it without duplicates, with the
/// guild present exactly once.
pub proof fn law_guild_order_unique(order: Seq<u64>, id: u64)
    requires
        order.no_duplicates(),
    ensures
        append_new(order, id).no_duplicates(),
        append_new(order, id).contains(id),
        append_new(order, id).filter(|x: u64| x == id).len() == 1,
{
    let r = append_new(order, id);
    if !order.contains(id) {
        assert(r[order.len() as int] == id);
        assert forall|a: int, b: int| 0 <= a < r.len() && 0 <= b < r.len() && a != b implies r[a]
            != r[b] by {
            if a == order.len() as int {
                assert(r[b] == order[b]);
            } else if b == order.len() as int {
                assert(r[a] == order[a]);
            } else {
                assert(r[a] == order[a] && r[b] == order[b]);
            }
        }
    }
    lemma_unique_count(r, id);
}

/// In a sequence without duplicates, an element it holds occurs exactly once.
pub proof fn lemma_unique_count(s: Seq<u64>, id: u64)
    requires
        s.no_duplicates(),
        s.contains(id),
    ensures
        s.filter(|x: u64| x == id).len() == 1,
    decreases s.len(),
{
    let f = |x: u64| x == id;
    reveal_with_fuel(Seq::filter, 1);
    let init = s.drop_last();
    assert(init.no_duplicates());
    assert(s =~= init.push(s.last()));
    if s.last() == id {
        assert(!init.contains(id)) by {
            if init.contains(id) {
                let k = choose|k: int| 0 <= k < init.len() && init[k] == id;
                assert(s[k] == s[s.len() - 1]);
            }
        }
        lemma_absent_count(init, id);
    } else {
        assert(init.contains(id)) by {
            let k = choose|k: int| 0 <= k < s.len() && s[k] == id;
            assert(k != s.len() - 1);
            assert(init[k] == id);
        }
        lemma_unique_count(init, id);
    }
}

/// An element a sequence does not hold occurs zero times.
pub proof fn lemma_absent_count(s: Seq<u64>, id: u64)
    requires
        !s.contains(id),
    ensures
        s.filter(|x: u64| x == id).len() == 0,
    decreases s.len(),
{
    reveal_with_fuel(Seq::filter, 1);
    if s.len() > 0 {
        let init = s.drop_last();
        assert(!init.contains(id)) by {
            if init.contains(id) {
                let k = choose|k: int| 0 <= k < init.len() && init[k] == id;
                assert(s[k] == id);
            }
        }
        assert(s.last() != id) by {
            if s.last() == id {
                assert(s[s.len() - 1] == id);
            }
        }
        lemma_absent_count(init, id);
    }
}

/// After inserting a guild, every channel it lists is looked up as belonging to it, and a
/// channel it dropped from its list has no lookup entry.
pub proof fn law_channel_lookup_follows_guild(
    m: Map<u64, u64>,
    old_order: Seq<u64>,
    new_order: Seq<u64>,
    id: u64,
    ch: u64,
)
    ensures
        new_order.contains(ch) ==> channel_guild_after_insert(m, Some(old_order), new_order, id).contains_key(ch)
            && channel_guild_after_insert(m, Some(old_order), new_order, id)[ch] == id,
        old_order.contains(ch) && !new_order.contains(ch) ==> !channel_guild_after_insert(
            m,
            Some(old_order),
            new_order,
            id,
        ).contains_key(ch),
{
}

/// After removing a channel, no order of guild channels holds it.
pub proof fn law_removed_channel_leaves_order(order: Seq<u64>, ch: u64)
    ensures
        !without(order, ch).contains(ch),
        forall|x: u64| order.contains(x) && x != ch ==> without(order, ch).contains(x),
{
    lemma_without_contains(order, ch, ch);
    assert forall|x: u64| order.contains(x) && x != ch implies without(order, ch).contains(x) by {
        lemma_without_contains(order, ch, x);
    }
}
} // verus!
