//! Connection bookkeeping: the output-history ring replayed after a
//! reconnect, the handshake frames owed at the start of every connection,
//! and the keepalive cadence.

use vstd::prelude::*;

verus! {

use vstd::string::StringExecFns;
use vstd::string::StrSliceExecFns;
use vstd::utf8::encode_utf8;
use crate::commands::resize::{make_size_message, size_payload};
use crate::constants::MAX_MESSAGE_HISTORY_SIZE;
use crate::message::{Message, MessageTypeToStream, MessageV};

/// The bounded ring of terminal-output messages kept for replay: at most
/// `MAX_MESSAGE_HISTORY_SIZE` entries, the oldest evicted first.
pub struct MessageHistory {
    items: Vec<Message<MessageTypeToStream>>,
}

impl View for MessageHistory {
    type V = Seq<MessageV<MessageTypeToStream>>;

    closed spec fn view(&self) -> Seq<MessageV<MessageTypeToStream>> {
        self.items@.map_values(|m: Message<MessageTypeToStream>| m@)
    }
}

impl MessageHistory {
    /// The ring never outgrows its bound.
    pub open spec fn wf(&self) -> bool {
        self@.len() <= MAX_MESSAGE_HISTORY_SIZE
    }

    /// An empty ring.
    pub fn new() -> (r: MessageHistory)
        ensures
            r@ =~= Seq::<MessageV<MessageTypeToStream>>::empty(),
            r.wf(),
    {
        let r = MessageHistory { items: Vec::new() };
        proof {
            assert(r@ =~= Seq::<MessageV<MessageTypeToStream>>::empty());
        }
        r
    }

    /// How many messages the ring holds.
    pub fn len(&self) -> (r: usize)
        ensures
            r == self@.len(),
    {
        self.items.len()
    }

    /// Record one message.  A full ring first evicts its oldest entry, so
    /// the bound holds afterwards in every case.
    pub fn push(&mut self, m: Message<MessageTypeToStream>)
        requires
            old(self).wf(),
        ensures
            final(self).wf(),
            final(self)@.len() <= MAX_MESSAGE_HISTORY_SIZE,
            old(self)@.len() < MAX_MESSAGE_HISTORY_SIZE ==> final(self)@ =~= old(self)@.push(m@),
            old(self)@.len() == MAX_MESSAGE_HISTORY_SIZE ==> final(self)@ =~= old(
                self,
            )@.drop_first().push(m@),
    {
        if self.items.len() == MAX_MESSAGE_HISTORY_SIZE {
            let _evicted = self.items.remove(0);
            proof {
                assert(self@ =~= old(self)@.drop_first());
            }
        }
        self.items.push(m);
        proof {
            assert(self@ =~= self@.drop_last().push(m@));
        }
    }

    /// The recorded message at one position, oldest first.
    pub fn get(&self, i: usize) -> (r: &Message<MessageTypeToStream>)
        requires
            i < self@.len(),
        ensures
            r@ == self@[i as int],
    {
        &self.items[i]
    }
}

/// The header frame body: `v` and the version, for an agent.
pub open spec fn agent_header_content(version: Seq<char>) -> Seq<u8> {
    encode_utf8("v"@ + version)
}

/// The frames owed to the peer right after a connection is established,
/// before any fresh traffic: one header naming the version, one control
/// message reporting the terminal size, then the whole output history in
/// insertion order.
pub fn handshake_messages(version: &String, rows: u16, cols: u16, history: &MessageHistory) -> (r:
    Vec<Message<MessageTypeToStream>>)
    ensures
        r@.len() == 2 + history@.len(),
        r@[0]@ == (MessageV {
            mtype: MessageTypeToStream::HEADER,
            content: Some(agent_header_content(version@)),
        }),
        r@[1]@ == (MessageV {
            mtype: MessageTypeToStream::COMMAND,
            content: Some(size_payload(rows, cols)),
        }),
        forall|i: int| 0 <= i < history@.len() ==> (#[trigger] r@[i + 2])@ == history@[i],
{
    let mut r: Vec<Message<MessageTypeToStream>> = Vec::new();
    let mut header = String::from_str("v");
    header.append(version.as_str());
    r.push(Message { mtype: MessageTypeToStream::HEADER, content: Some(header.as_str().as_bytes_vec()) });
    r.push(make_size_message(rows, cols));
    let mut i: usize = 0;
    while i < history.len()
        invariant
            0 <= i <= history@.len(),
            r@.len() == 2 + i,
            r@[0]@ == (MessageV {
                mtype: MessageTypeToStream::HEADER,
                content: Some(agent_header_content(version@)),
            }),
            r@[1]@ == (MessageV {
                mtype: MessageTypeToStream::COMMAND,
                content: Some(size_payload(rows, cols)),
            }),
            forall|j: int| 0 <= j < i ==> (#[trigger] r@[j + 2])@ == history@[j],
        decreases history@.len() - i,
    {
        let m = history.get(i).clone();
        r.push(m);
        i = i + 1;
    }
    r
}

/// The client-side header frame body: `v<version>/command`.
pub fn make_command_header(version: &String) -> (r: Message<MessageTypeToStream>)
    ensures
        r@ == (MessageV {
            mtype: MessageTypeToStream::HEADER,
            content: Some(encode_utf8("v"@ + version@ + "/command"@)),
        }),
{
    let mut header = String::from_str("v");
    header.append(version.as_str());
    header.append("/command");
    Message { mtype: MessageTypeToStream::HEADER, content: Some(header.as_str().as_bytes_vec()) }
}

/// Whether a keepalive is owed: one is due at once on a fresh connection,
/// then whenever at least `keep_alive_ms` milliseconds have passed since
/// the last one.
pub fn keepalive_due(now_ms: u64, last_keep_alive_ms: Option<u64>, keep_alive_ms: u64) -> (r: bool)
    ensures
        r == match last_keep_alive_ms {
            None => true,
            Some(t) => now_ms as int - t as int >= keep_alive_ms as int,
        },
{
    match last_keep_alive_ms {
        None => true,
        Some(t) => now_ms >= t && now_ms - t >= keep_alive_ms,
    }
}

} // verus!
