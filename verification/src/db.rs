use vstd::prelude::*;
use crate::types::{CachedMessage, MessageAttachment, MessageEmbed, MessageReference};

verus! {

/// A row of the `messages` table as the database holds it: ids as signed 64-bit integers,
/// the flag as an integer, and the lists already read back from their JSON columns.
#[derive(Debug)]
pub struct MessageRow {
    pub id: i64,
    pub channel_id: i64,
    pub author_id: i64,
    pub content: String,
    pub timestamp: String,
    pub edited_timestamp: Option<String>,
    pub attachments: Vec<MessageAttachment>,
    pub embeds: Vec<MessageEmbed>,
    pub message_reference: Option<MessageReference>,
    pub mentions: Vec<u64>,
    pub mention_everyone: i32,
}

/// The ids of a list that are not zero, in order.
pub open spec fn nonzero_ids(s: Seq<u64>) -> Seq<u64>
    decreases s.len(),
{
    if s.len() == 0 {
        Seq::empty()
    } else if s.last() > 0 {
        nonzero_ids(s.drop_last()).push(s.last())
    } else {
        nonzero_ids(s.drop_last())
    }
}

fn keep_nonzero(ids: Vec<u64>) -> (r: Vec<u64>)
    ensures
        r@ == nonzero_ids(ids@),
{
    let mut out: Vec<u64> = Vec::new();
    let mut i: usize = 0;
    while i < ids.len()
        invariant
            i <= ids@.len(),
            out@ == nonzero_ids(ids@.take(i as int)),
        decreases ids@.len() - i,
    {
        proof {
            assert(ids@.take(i + 1).drop_last() =~= ids@.take(i as int));
        }
        if ids[i] > 0 {
            out.push(ids[i]);
        }
        i = i + 1;
    }
    assert(ids@.take(ids@.len() as int) =~= ids@);
    out
}

/// The message a stored row holds: the ids read back as unsigned, the zero ids dropped from
/// the mentions, any flag value but zero read as set. Stored messages are not rendered yet.
pub fn row_to_message(row: MessageRow) -> (m: CachedMessage)
    ensures
        m.id == row.id as u64,
        m.channel_id == row.channel_id as u64,
        m.author_id == row.author_id as u64,
        m.content == row.content,
        m.timestamp == row.timestamp,
        m.edited_timestamp == row.edited_timestamp,
        m.attachments == row.attachments,
        m.embeds == row.embeds,
        m.message_reference == row.message_reference,
        m.mentions@ == nonzero_ids(row.mentions@),
        m.mention_everyone == (row.mention_everyone != 0),
        m.rendered is None,
{
    let mentions = keep_nonzero(row.mentions);
    CachedMessage {
        id: row.id as u64,
        channel_id: row.channel_id as u64,
        author_id: row.author_id as u64,
        content: row.content,
        timestamp: row.timestamp,
        edited_timestamp: row.edited_timestamp,
        attachments: row.attachments,
        embeds: row.embeds,
        message_reference: row.message_reference,
        mention_everyone: row.mention_everyone != 0,
        mentions,
        rendered: None,
    }
}

/// The row that stores a message: the ids as signed 64-bit integers (bit for bit), the flag
/// as one or zero.
pub fn message_to_row(msg: CachedMessage) -> (row: MessageRow)
    ensures
        row.id == msg.id as i64,
        row.channel_id == msg.channel_id as i64,
        row.author_id == msg.author_id as i64,
        row.content == msg.content,
        row.timestamp == msg.timestamp,
        row.edited_timestamp == msg.edited_timestamp,
        row.attachments == msg.attachments,
        row.embeds == msg.embeds,
        row.message_reference == msg.message_reference,
        row.mentions == msg.mentions,
        row.mention_everyone == (if msg.mention_everyone { 1i32 } else { 0i32 }),
{
    MessageRow {
        id: msg.id as i64,
        channel_id: msg.channel_id as i64,
        author_id: msg.author_id as i64,
        content: msg.content,
        timestamp: msg.timestamp,
        edited_timestamp: msg.edited_timestamp,
        attachments: msg.attachments,
        embeds: msg.embeds,
        message_reference: msg.message_reference,
        mentions: msg.mentions,
        mention_everyone: if msg.mention_everyone {
            1
        } else {
            0
        },
    }
}

/// Storing a message and reading its row back gives the message again, unrendered, when it
/// mentions no one by the id zero.
pub proof fn law_row_roundtrip(msg: CachedMessage, row: MessageRow, back: CachedMessage)
    requires
        forall|k: int| 0 <= k < msg.mentions@.len() ==> msg.mentions@[k] > 0,
        row.id == msg.id as i64,
        row.channel_id == msg.channel_id as i64,
        row.author_id == msg.author_id as i64,
        row.mentions == msg.mentions,
        row.mention_everyone == (if msg.mention_everyone { 1i32 } else { 0i32 }),
        back.id == row.id as u64,
        back.channel_id == row.channel_id as u64,
        back.author_id == row.author_id as u64,
        back.mentions@ == nonzero_ids(row.mentions@),
        back.mention_everyone == (row.mention_everyone != 0),
    ensures
        back.id == msg.id,
        back.channel_id == msg.channel_id,
        back.author_id == msg.author_id,
        back.mentions@ == msg.mentions@,
        back.mention_everyone == msg.mention_everyone,
{
    lemma_nonzero_ids_keeps(msg.mentions@);
    let (a, b, c) = (msg.id, msg.channel_id, msg.author_id);
    assert((a as i64) as u64 == a) by (bit_vector);
    assert((b as i64) as u64 == b) by (bit_vector);
    assert((c as i64) as u64 == c) by (bit_vector);
}

/// A list without zero ids is kept whole.
pub proof fn lemma_nonzero_ids_keeps(s: Seq<u64>)
    requires
        forall|k: int| 0 <= k < s.len() ==> s[k] > 0,
    ensures
        nonzero_ids(s) == s,
    decreases s.len(),
{
    if s.len() > 0 {
        lemma_nonzero_ids_keeps(s.drop_last());
        assert(s.drop_last().push(s.last()) =~= s);
    }
}

} // verus!
