use vstd::prelude::*;
use crate::types::{ClipboardEntry, ClipboardItem};

verus! {

/// Messages sent from a client to the relay.
pub enum ClientMessage {
    /// Join the group of a secret's hash.
    Join { secret_hash: String, device_id: String },
    /// A new clipboard item, with the time it was sent.
    NewClip { item: ClipboardItem, timestamp: u64 },
    /// Ask for the group's history.
    RequestHistory,
    /// Liveness check.
    Ping,
}

/// Messages sent from the relay to a client.
pub enum ServerMessage {
    /// The client joined a group, which held this history.
    Joined { history: Vec<ClipboardEntry> },
    /// Another device of the group sent an item.
    ClipReceived { entry: ClipboardEntry },
    /// The group's history, on request.
    History { entries: Vec<ClipboardEntry> },
    /// The relay took the item sent at this time.
    Ack { timestamp: u64 },
    /// A request was refused or could not be read.
    Error { message: String },
    /// Answer to a ping.
    Pong,
}

impl ClientMessage {
    pub fn join(secret_hash: String, device_id: String) -> (r: ClientMessage)
        ensures
            r == (ClientMessage::Join { secret_hash, device_id }),
    {
        ClientMessage::Join { secret_hash, device_id }
    }

    pub fn new_clip(item: ClipboardItem, timestamp: u64) -> (r: ClientMessage)
        ensures
            r == (ClientMessage::NewClip { item, timestamp }),
    {
        ClientMessage::NewClip { item, timestamp }
    }
}

/// A copy of a list of entries, element for element.
pub fn copy_entries(entries: &Vec<ClipboardEntry>) -> (r: Vec<ClipboardEntry>)
    ensures
        r@ == entries@,
{
    let mut r: Vec<ClipboardEntry> = Vec::new();
    let mut i: usize = 0;
    while i < entries.len()
        invariant
            i <= entries@.len(),
            r@ == entries@.subrange(0, i as int),
        decreases entries@.len() - i,
    {
        r.push(entries[i].clone());
        i = i + 1;
    }
    assert(r@ =~= entries@);
    r
}

impl ServerMessage {
    pub fn joined(history: Vec<ClipboardEntry>) -> (r: ServerMessage)
        ensures
            r == (ServerMessage::Joined { history }),
    {
        ServerMessage::Joined { history }
    }

    pub fn clip_received(entry: ClipboardEntry) -> (r: ServerMessage)
        ensures
            r == (ServerMessage::ClipReceived { entry }),
    {
        ServerMessage::ClipReceived { entry }
    }

    pub fn error(message: String) -> (r: ServerMessage)
        ensures
            r == (ServerMessage::Error { message }),
    {
        ServerMessage::Error { message }
    }
}

impl Clone for ServerMessage {
    fn clone(&self) -> (r: ServerMessage)
        ensures
            r matches ServerMessage::Joined { history } ==> self matches ServerMessage::Joined { history: h } && history@ == h@,
            r matches ServerMessage::History { entries } ==> self matches ServerMessage::History { entries: h } && entries@ == h@,
            !(r is Joined) && !(r is History) ==> r == *self,
            r is Joined == self is Joined,
            r is History == self is History,
    {
        match self {
            ServerMessage::Joined { history } => ServerMessage::Joined { history: copy_entries(history) },
            ServerMessage::ClipReceived { entry } => ServerMessage::ClipReceived { entry: entry.clone() },
            ServerMessage::History { entries } => ServerMessage::History { entries: copy_entries(entries) },
            ServerMessage::Ack { timestamp } => ServerMessage::Ack { timestamp: *timestamp },
            ServerMessage::Error { message } => ServerMessage::Error { message: message.clone() },
            ServerMessage::Pong => ServerMessage::Pong,
        }
    }
}

} // verus!
