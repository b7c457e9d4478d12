use vstd::prelude::*;
use vstd::string::StringExecFns;
use crate::protocol::{ClientMessage, ServerMessage};
use crate::types::ClipboardEntry;

verus! {

/// The relay's state for one connection.
pub enum Connection {
    /// No group joined yet.
    Unjoined,
    /// Joined to the group of `secret_hash` as `device_id`.
    Joined { secret_hash: String, device_id: String },
}

/// What the relay does with one frame of a connection.
pub enum Step {
    /// Resolve the group of `secret_hash` and join it as `device_id`.
    Join { secret_hash: String, device_id: String },
    /// Publish `entry` to the joined group and acknowledge it to the sender.
    Publish { entry: ClipboardEntry },
    /// Reply with the joined group's history.
    SendHistory,
    /// Reply with this message; nothing else changes.
    Reply { message: ServerMessage },
}

/// The reply to a request that needs a joined group.
pub open spec fn not_joined_text() -> Seq<char> {
    "not joined"@
}

/// The reply to a second `Join`.
pub open spec fn already_joined_text() -> Seq<char> {
    "already joined"@
}

/// The reply to a frame that could not be read: the decoder's words after a
/// fixed prefix.
pub open spec fn invalid_text(detail: Seq<char>) -> Seq<char> {
    "invalid message: "@ + detail
}

/// `step` replies with an `Error` that reads `text`.
pub open spec fn is_error_reply(step: Step, text: Seq<char>) -> bool {
    step matches Step::Reply { message: ServerMessage::Error { message } } && message@ == text
}

fn error_reply(text: &str) -> (r: Step)
    ensures
        is_error_reply(r, text@),
{
    Step::Reply { message: ServerMessage::error(String::from_str(text)) }
}

impl Connection {
    pub fn new() -> (r: Connection)
        ensures
            r is Unjoined,
    {
        Connection::Unjoined
    }

    /// The device this connection joined as, if it joined.
    pub fn device_id(&self) -> (r: Option<String>)
        ensures
            match *self {
                Connection::Unjoined => r is None,
                Connection::Joined { device_id, .. } => r == Some(device_id),
            },
    {
        match self {
            Connection::Unjoined => None,
            Connection::Joined { device_id, .. } => Some(device_id.clone()),
        }
    }

    /// Decides what to do with one frame: a message, or the decoder's words
    /// where the frame could not be read. Only a first `Join` changes the
    /// state; every refusal is a reply and the connection stays open.
    pub fn handle(&mut self, input: Result<ClientMessage, String>) -> (r: Step)
        ensures
            match input {
                Err(detail) => is_error_reply(r, invalid_text(detail@)) && *final(self) == *old(self),
                Ok(ClientMessage::Ping) => r == (Step::Reply { message: ServerMessage::Pong })
                    && *final(self) == *old(self),
                Ok(ClientMessage::Join { secret_hash, device_id }) => match *old(self) {
                    Connection::Unjoined => r == (Step::Join { secret_hash, device_id })
                        && *final(self) == (Connection::Joined { secret_hash, device_id }),
                    Connection::Joined { .. } => is_error_reply(r, already_joined_text())
                        && *final(self) == *old(self),
                },
                Ok(ClientMessage::NewClip { item, timestamp }) => match *old(self) {
                    Connection::Joined { device_id, .. } => r == (Step::Publish {
                        entry: ClipboardEntry { item, timestamp, device_id: Some(device_id) },
                    }) && *final(self) == *old(self),
                    Connection::Unjoined => is_error_reply(r, not_joined_text())
                        && *final(self) == *old(self),
                },
                Ok(ClientMessage::RequestHistory) => match *old(self) {
                    Connection::Joined { .. } => r == Step::SendHistory && *final(self) == *old(self),
                    Connection::Unjoined => is_error_reply(r, not_joined_text())
                        && *final(self) == *old(self),
                },
            },
    {
        proof {
            reveal_strlit("not joined");
            reveal_strlit("already joined");
        }
        match input {
            Err(detail) => {
                let text = String::from_str("invalid message: ").concat(detail.as_str());
                Step::Reply { message: ServerMessage::error(text) }
            },
            Ok(ClientMessage::Ping) => Step::Reply { message: ServerMessage::Pong },
            Ok(ClientMessage::Join { secret_hash, device_id }) => {
                if self.device_id().is_some() {
                    error_reply("already joined")
                } else {
                    let step = Step::Join { secret_hash: secret_hash.clone(), device_id: device_id.clone() };
                    *self = Connection::Joined { secret_hash, device_id };
                    step
                }
            },
            Ok(ClientMessage::NewClip { item, timestamp }) => match self.device_id() {
                Some(id) => Step::Publish { entry: ClipboardEntry { item, timestamp, device_id: Some(id) } },
                None => error_reply("not joined"),
            },
            Ok(ClientMessage::RequestHistory) => match self.device_id() {
                Some(_) => Step::SendHistory,
                None => error_reply("not joined"),
            },
        }
    }
}

} // verus!
