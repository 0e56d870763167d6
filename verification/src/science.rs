use vstd::prelude::*;
use crate::json::{jv, jvs, Json, JsonNumber, JsonValue};
use crate::text::{copy_str, decimal, decimal_string};

verus! {

/// One analytics event, as the web client reports them.
#[derive(Debug)]
pub struct ScienceEvent {
    pub event_type: String,
    pub properties: JsonValue,
}

/// The current time in milliseconds since the Unix epoch, from the system clock. Trusted: it
/// reads the clock, so nothing is claimed of it; a clock before the epoch reads as zero.
#[verifier::external_body]
fn clock_ms() -> u64 {
    std::time::SystemTime::now().duration_since(std::time::UNIX_EPOCH).map(|d| d.as_millis() as u64).unwrap_or(0)
}

/// The current time in milliseconds since the Unix epoch.
pub fn timestamp_ms() -> u64 {
    clock_ms()
}

/// Whether `j` holds the two client timestamps that every event carries, after `head`.
pub open spec fn stamped(j: Json, head: Seq<(Seq<char>, Json)>) -> bool {
    j matches Json::Object(es) && es.len() == head.len() + 2 && es.subrange(0, head.len() as int)
        == head && es[head.len() as int].0 == "client_send_timestamp"@ && es[head.len() as int].1 is Number
        && es[head.len() + 1int].0 == "client_track_timestamp"@ && es[head.len() + 1int].1 is Number
}

/// The properties of "app opened": the two timestamps.
pub open spec fn app_opened_fits(j: Json) -> bool {
    stamped(j, Seq::empty())
}

/// The properties of "channel opened": the channel, its guild (or null), the channel type
/// (1 for a direct message, 0 in a guild), then the timestamps.
pub open spec fn channel_opened_fits(j: Json, channel_id: u64, guild_id: Option<u64>) -> bool {
    stamped(
        j,
        seq![
            ("channel_id"@, Json::Str(decimal(channel_id as nat))),
            (
                "guild_id"@,
                match guild_id {
                    Some(g) => Json::Str(decimal(g as nat)),
                    None => Json::Null,
                },
            ),
            (
                "channel_type"@,
                Json::Number(JsonNumber::PosInt(if guild_id is None { 1 } else { 0 })),
            ),
        ],
    )
}

/// The properties of "guild viewed": the guild, then the timestamps.
pub open spec fn guild_viewed_fits(j: Json, guild_id: u64) -> bool {
    stamped(j, seq![("guild_id"@, Json::Str(decimal(guild_id as nat)))])
}

/// Tracks the analytics events to send, so that "app opened" goes out once.
#[derive(Debug)]
pub struct ScienceTracker {
    app_opened_sent: bool,
    events: Vec<ScienceEvent>,
}

/// The JSON form of an event: its type and its properties.
pub open spec fn event_json(e: ScienceEvent) -> Json {
    Json::Object(seq![("type"@, Json::Str(e.event_type@)), ("properties"@, jv(e.properties))])
}

fn timestamps(entries: &mut Vec<(String, JsonValue)>)
    ensures
        final(entries)@.len() == old(entries)@.len() + 2,
        final(entries)@.subrange(0, old(entries)@.len() as int) == old(entries)@,
        final(entries)@[old(entries)@.len() as int].0@ == "client_send_timestamp"@,
        final(entries)@[old(entries)@.len() as int].1 is Number,
        final(entries)@[old(entries)@.len() + 1int].0@ == "client_track_timestamp"@,
        final(entries)@[old(entries)@.len() + 1int].1 is Number,
{
    let ghost before = entries@;
    entries.push((copy_str("client_send_timestamp"), JsonValue::Number(JsonNumber::PosInt(timestamp_ms()))));
    entries.push((copy_str("client_track_timestamp"), JsonValue::Number(JsonNumber::PosInt(timestamp_ms()))));
    assert(entries@.subrange(0, before.len() as int) =~= before);
}

impl ScienceTracker {
    /// The events waiting to be sent.
    pub closed spec fn pending(&self) -> Seq<ScienceEvent> {
        self.events@
    }

    /// Whether "app opened" was recorded.
    pub closed spec fn opened(&self) -> bool {
        self.app_opened_sent
    }

    /// A tracker with nothing recorded.
    pub fn new() -> (t: Self)
        ensures
            t.pending().len() == 0,
            !t.opened(),
    {
        ScienceTracker { app_opened_sent: false, events: Vec::new() }
    }

    /// Records "app opened", the first time only.
    pub fn track_app_opened(&mut self)
        ensures
            final(self).opened(),
            old(self).opened() ==> final(self).pending() == old(self).pending(),
            !old(self).opened() ==> final(self).pending().len() == old(self).pending().len() + 1
                && final(self).pending().subrange(0, old(self).pending().len() as int) == old(
                self,
            ).pending() && final(self).pending().last().event_type@ == "app_opened"@
                && app_opened_fits(
                crate::json::jv(final(self).pending().last().properties),
            ),
    {
        if self.app_opened_sent {
            return;
        }
        self.app_opened_sent = true;
        let mut entries: Vec<(String, JsonValue)> = Vec::new();
        timestamps(&mut entries);
        proof {
            crate::json::lemma_jentries_index(entries@);
            assert(crate::json::jentries(entries@).subrange(0, 0) =~= Seq::<(Seq<char>, Json)>::empty());
        }
        let ghost before = self.events@;
        self.events.push(ScienceEvent { event_type: copy_str("app_opened"), properties: JsonValue::Object(entries) });
        assert(self.events@.subrange(0, before.len() as int) =~= before);
    }

    /// Records "channel opened".
    pub fn track_channel_opened(&mut self, channel_id: u64, guild_id: Option<u64>)
        ensures
            final(self).opened() == old(self).opened(),
            final(self).pending().len() == old(self).pending().len() + 1,
            final(self).pending().subrange(0, old(self).pending().len() as int) == old(self).pending(),
            final(self).pending().last().event_type@ == "channel_opened"@,
            channel_opened_fits(crate::json::jv(final(self).pending().last().properties), channel_id, guild_id),
    {
        let mut entries: Vec<(String, JsonValue)> = Vec::new();
        entries.push((copy_str("channel_id"), JsonValue::String(decimal_string(channel_id))));
        let g = match guild_id {
            Some(g) => JsonValue::String(decimal_string(g)),
            None => JsonValue::Null,
        };
        entries.push((copy_str("guild_id"), g));
        let kind: u64 = if guild_id.is_none() { 1 } else { 0 };
        entries.push((copy_str("channel_type"), JsonValue::Number(JsonNumber::PosInt(kind))));
        let ghost head = entries@;
        timestamps(&mut entries);
        proof {
            crate::json::lemma_jentries_index(entries@);
            crate::json::lemma_jentries_index(head);
            assert(entries@.subrange(0, 3)[0] == head[0]);
            assert(entries@.subrange(0, 3)[1] == head[1]);
            assert(entries@.subrange(0, 3)[2] == head[2]);
            let want = seq![
                ("channel_id"@, Json::Str(decimal(channel_id as nat))),
                ("guild_id"@, match guild_id {
                    Some(g) => Json::Str(decimal(g as nat)),
                    None => Json::Null,
                }),
                ("channel_type"@, Json::Number(JsonNumber::PosInt(if guild_id is None { 1 } else { 0 }))),
            ];
            assert(crate::json::jentries(entries@).subrange(0, 3) =~= want);
        }
        let ghost before = self.events@;
        self.events.push(ScienceEvent { event_type: copy_str("channel_opened"), properties: JsonValue::Object(entries) });
        assert(self.events@.subrange(0, before.len() as int) =~= before);
    }

    /// Records "guild viewed".
    pub fn track_guild_viewed(&mut self, guild_id: u64)
        ensures
            final(self).opened() == old(self).opened(),
            final(self).pending().len() == old(self).pending().len() + 1,
            final(self).pending().subrange(0, old(self).pending().len() as int) == old(self).pending(),
            final(self).pending().last().event_type@ == "guild_viewed"@,
            guild_viewed_fits(crate::json::jv(final(self).pending().last().properties), guild_id),
    {
        let mut entries: Vec<(String, JsonValue)> = Vec::new();
        entries.push((copy_str("guild_id"), JsonValue::String(decimal_string(guild_id))));
        let ghost head = entries@;
        timestamps(&mut entries);
        proof {
            assert(entries@.subrange(0, 1)[0] == head[0]);
            crate::json::lemma_jentries_index(entries@);
            assert(crate::json::jentries(entries@).subrange(0, 1) =~= seq![("guild_id"@, Json::Str(decimal(guild_id as nat)))]);
        }
        let ghost before = self.events@;
        self.events.push(ScienceEvent { event_type: copy_str("guild_viewed"), properties: JsonValue::Object(entries) });
        assert(self.events@.subrange(0, before.len() as int) =~= before);
    }

    /// Takes the pending events as one batch, `{"events": [...]}`, ready to send; `None` when
    /// nothing is pending. The tracker is left empty.
    pub fn drain_batch(&mut self) -> (r: Option<JsonValue>)
        ensures
            final(self).pending().len() == 0,
            final(self).opened() == old(self).opened(),
            old(self).pending().len() == 0 <==> r is None,
            r matches Some(b) ==> jv(b) == Json::Object(
                seq![("events"@, Json::Array(old(self).pending().map_values(|e: ScienceEvent| event_json(e))))],
            ),
    {
        if self.events.len() == 0 {
            return None;
        }
        let mut events: Vec<ScienceEvent> = Vec::new();
        std::mem::swap(&mut events, &mut self.events);
        let ghost all = events@;
        let mut out: Vec<JsonValue> = Vec::new();
        for e in it: events.into_iter()
            invariant
                it.seq() == all,
                jvs(out@) == all.take(it.index() as int).map_values(|e: ScienceEvent| event_json(e)),
        {
            let ghost k = it.index() as int;
            let mut fields: Vec<(String, JsonValue)> = Vec::new();
            fields.push((copy_str("type"), JsonValue::String(e.event_type)));
            fields.push((copy_str("properties"), e.properties));
            proof {
                crate::json::lemma_jentries_index(fields@);
                assert(crate::json::jentries(fields@) =~= event_json(all[k])->Object_0);
            }
            let item = JsonValue::Object(fields);
            proof {
                crate::json::lemma_jvs_last(out@.push(item));
                assert(out@.push(item).drop_last() =~= out@);
                assert(all.take(k + 1).map_values(|e: ScienceEvent| event_json(e)) =~= all.take(k).map_values(
                    |e: ScienceEvent| event_json(e),
                ).push(event_json(all[k])));
            }
            out.push(item);
        }
        assert(all.take(all.len() as int) =~= all);
        let mut top: Vec<(String, JsonValue)> = Vec::new();
        top.push((copy_str("events"), JsonValue::Array(out)));
        proof {
            crate::json::lemma_jentries_index(top@);
        }
        let b = JsonValue::Object(top);
        assert(crate::json::jentries(top@) =~= seq![("events"@, Json::Array(all.map_values(|e: ScienceEvent| event_json(e))))]);
        Some(b)
    }
}

} // verus!
