use vstd::prelude::*;
use vstd::string::{StrSliceExecFns, StringExecFns};
use crate::crypto::{hash_secret, sha256_hex};
use crate::protocol::{ClientMessage, ServerMessage};
use crate::types::{ClipboardEntry, ClipboardItem};

verus! {

/// Why the sync engine refused a request.
#[derive(PartialEq, Eq, Structural, Debug, Clone, Copy)]
pub enum SyncError {
    AlreadyConnected,
    NotConnected,
}

/// What the client does with a message from the relay.
pub enum ClientAction {
    /// Write this item to the local clipboard.
    Apply(ClipboardItem),
    /// Show the group's history; the clipboard is left alone.
    ShowHistory(Vec<ClipboardEntry>),
    /// Tell the user of this error; the session stays up.
    Report(String),
    /// Nothing to do.
    Nothing,
}

/// The address of the relay's upgrade path for `url`: `url` itself where it
/// ends in `/ws`, else `url` followed by `/ws`.
pub open spec fn ws_url(url: Seq<char>) -> Seq<char> {
    if url.len() >= 3 && url.subrange(url.len() - 3, url.len() as int) == "/ws"@ {
        url
    } else {
        url + "/ws"@
    }
}

/// `item` differs from what `last` holds, or `last` holds nothing.
pub open spec fn differs(last: Option<ClipboardItem>, item: ClipboardItem) -> bool {
    match last {
        Some(x) => x@ != item@,
        None => true,
    }
}

/// The client side of a session: connection state, pause flag, and the two
/// contents that echo suppression tracks.
pub struct SyncManager {
    is_connected: bool,
    is_paused: bool,
    device_id: String,
    last_sent: Option<ClipboardItem>,
    last_applied: Option<ClipboardItem>,
}

fn ends_with_ws(s: &str) -> (r: bool)
    ensures
        r == (s@.len() >= 3 && s@.subrange(s@.len() - 3, s@.len() as int) == "/ws"@),
{
    proof {
        reveal_strlit("/ws");
    }
    let n = s.unicode_len();
    if n < 3 {
        return false;
    }
    let a = s.get_char(n - 3);
    let b = s.get_char(n - 2);
    let c = s.get_char(n - 1);
    let r = a == '/' && b == 'w' && c == 's';
    assert(r ==> s@.subrange(n - 3, n as int) =~= "/ws"@);
    assert(s@.subrange(n - 3, n as int) == "/ws"@ ==> s@.subrange(n - 3, n as int)[0] == '/' && s@.subrange(
        n - 3,
        n as int,
    )[1] == 'w' && s@.subrange(n - 3, n as int)[2] == 's');
    r
}

impl SyncManager {
    pub closed spec fn connected(&self) -> bool {
        self.is_connected
    }

    pub closed spec fn paused(&self) -> bool {
        self.is_paused
    }

    pub closed spec fn device(&self) -> Seq<char> {
        self.device_id@
    }

    /// The content this client last sent upstream.
    pub closed spec fn last_sent(&self) -> Option<ClipboardItem> {
        self.last_sent
    }

    /// The content this client last took from another device.
    pub closed spec fn last_applied(&self) -> Option<ClipboardItem> {
        self.last_applied
    }

    /// A poll that reads `current` sends it upstream.
    pub open spec fn poll_sends(&self, current: Option<ClipboardItem>) -> bool {
        &&& self.connected()
        &&& !self.paused()
        &&& current matches Some(item)
        &&& differs(self.last_sent(), item)
        &&& differs(self.last_applied(), item)
    }

    /// A disconnected engine whose device id is `device-` followed by
    /// `uuid`, the text of an id drawn for this process.
    pub fn new(uuid: String) -> (r: SyncManager)
        ensures
            !r.connected(),
            !r.paused(),
            r.device() == "device-"@ + uuid@,
            r.last_sent() is None,
            r.last_applied() is None,
    {
        let id = String::from_str("device-").concat(uuid.as_str());
        SyncManager::with_device_id(id)
    }

    /// A disconnected engine that identifies itself as `device_id`.
    pub fn with_device_id(device_id: String) -> (r: SyncManager)
        ensures
            !r.connected(),
            !r.paused(),
            r.device() == device_id@,
            r.last_sent() is None,
            r.last_applied() is None,
    {
        SyncManager {
            is_connected: false,
            is_paused: false,
            device_id,
            last_sent: None,
            last_applied: None,
        }
    }

    /// The first step of `connect`: fails when a session is up; else the
    /// address to open and the `Join` to send first, for the group of
    /// `shared_secret`.
    pub fn begin_connect(&self, server_url: String, shared_secret: &str) -> (r: Result<
        (String, ClientMessage),
        SyncError,
    >)
        ensures
            self.connected() ==> r == Err::<(String, ClientMessage), SyncError>(SyncError::AlreadyConnected),
            !self.connected() ==> (r matches Ok((url, ClientMessage::Join { secret_hash, device_id }))
                && url@ == ws_url(server_url@) && secret_hash@ == sha256_hex(shared_secret@)
                && device_id@ == self.device()),
    {
        if self.is_connected {
            return Err(SyncError::AlreadyConnected);
        }
        let url = if ends_with_ws(server_url.as_str()) {
            server_url
        } else {
            server_url.concat("/ws")
        };
        let join = ClientMessage::join(hash_secret(shared_secret), self.device_id.clone());
        Ok((url, join))
    }

    /// The session is up: the transport is open and the `Join` was sent.
    pub fn connected_now(&mut self)
        ensures
            final(self).connected(),
            final(self).paused() == old(self).paused(),
            final(self).device() == old(self).device(),
            final(self).last_sent() is None,
            final(self).last_applied() is None,
    {
        self.is_connected = true;
        self.last_sent = None;
        self.last_applied = None;
    }

    /// Ends the session; fails when none is up.
    pub fn disconnect(&mut self) -> (r: Result<(), SyncError>)
        ensures
            !old(self).connected() ==> r == Err::<(), SyncError>(SyncError::NotConnected) && *final(self) == *old(self),
            old(self).connected() ==> r is Ok && !final(self).connected()
                && final(self).last_sent() is None && final(self).last_applied() is None
                && final(self).paused() == old(self).paused()
                && final(self).device() == old(self).device(),
    {
        if !self.is_connected {
            return Err(SyncError::NotConnected);
        }
        self.is_connected = false;
        self.last_sent = None;
        self.last_applied = None;
        Ok(())
    }

    /// Suspends or resumes the detection of local changes.
    pub fn set_paused(&mut self, paused: bool)
        ensures
            final(self).paused() == paused,
            final(self).connected() == old(self).connected(),
            final(self).device() == old(self).device(),
            final(self).last_sent() == old(self).last_sent(),
            final(self).last_applied() == old(self).last_applied(),
    {
        self.is_paused = paused;
    }

    pub fn is_connected(&self) -> (r: bool)
        ensures
            r == self.connected(),
    {
        self.is_connected
    }

    pub fn is_paused(&self) -> (r: bool)
        ensures
            r == self.paused(),
    {
        self.is_paused
    }

    pub fn device_id(&self) -> (r: String)
        ensures
            r@ == self.device(),
    {
        self.device_id.clone()
    }

    /// Decides what a message from the relay calls for. An item from another
    /// device is applied and remembered, so that the next poll does not send
    /// it back; history is shown, not applied.
    pub fn on_server_message(&mut self, msg: ServerMessage) -> (r: ClientAction)
        ensures
            match msg {
                ServerMessage::ClipReceived { entry } => r == ClientAction::Apply(entry.item)
                    && final(self).last_applied() == Some(entry.item)
                    && final(self).last_sent() == old(self).last_sent()
                    && final(self).connected() == old(self).connected()
                    && final(self).paused() == old(self).paused()
                    && final(self).device() == old(self).device(),
                ServerMessage::Joined { history } => r == ClientAction::ShowHistory(history)
                    && *final(self) == *old(self),
                ServerMessage::Error { message } => r == ClientAction::Report(message)
                    && *final(self) == *old(self),
                _ => r == ClientAction::Nothing && *final(self) == *old(self),
            },
    {
        match msg {
            ServerMessage::ClipReceived { entry } => {
                self.last_applied = Some(entry.item.clone());
                ClientAction::Apply(entry.item)
            },
            ServerMessage::Joined { history } => ClientAction::ShowHistory(history),
            ServerMessage::Error { message } => ClientAction::Report(message),
            _ => ClientAction::Nothing,
        }
    }

    /// One poll of the local clipboard, which held `current` at time `now`:
    /// the `NewClip` to send when the content is new, that is neither what
    /// this client last sent nor what it last applied.
    pub fn on_poll(&mut self, current: Option<ClipboardItem>, now: u64) -> (r: Option<ClientMessage>)
        ensures
            old(self).poll_sends(current) ==> (current matches Some(item) && r == Some(
                ClientMessage::NewClip { item, timestamp: now },
            ) && final(self).last_sent() == Some(item)
                && final(self).last_applied() == old(self).last_applied()
                && final(self).connected() == old(self).connected()
                && final(self).paused() == old(self).paused()
                && final(self).device() == old(self).device()),
            !old(self).poll_sends(current) ==> r is None && *final(self) == *old(self),
    {
        if !self.is_connected || self.is_paused {
            return None;
        }
        match current {
            None => None,
            Some(item) => {
                let fresh_sent = match &self.last_sent {
                    Some(x) => *x != item,
                    None => true,
                };
                let fresh_applied = match &self.last_applied {
                    Some(x) => *x != item,
                    None => true,
                };
                if fresh_sent && fresh_applied {
                    self.last_sent = Some(item.clone());
                    Some(ClientMessage::new_clip(item, now))
                } else {
                    None
                }
            },
        }
    }
}

/// Echo suppression: once an item from another device has been applied, a
/// poll that finds the same content on the local clipboard sends nothing.
pub proof fn lemma_applied_item_not_resent(s: SyncManager, item: ClipboardItem, current: ClipboardItem)
    requires
        s.last_applied() == Some(item),
        current@ == item@,
    ensures
        !s.poll_sends(Some(current)),
{
}

/// A poll after a send does not send the same content again.
pub proof fn lemma_sent_item_not_resent(s: SyncManager, item: ClipboardItem, current: ClipboardItem)
    requires
        s.last_sent() == Some(item),
        current@ == item@,
    ensures
        !s.poll_sends(Some(current)),
{
}

} // verus!
