use vstd::prelude::*;
use vstd::string::StringExecFns;
use crate::protocol::ServerMessage;
use crate::types::ClipboardEntry;

verus! {

#[verifier::external_type_specification]
#[verifier::external_body]
#[verifier::reject_recursive_types(T)]
pub struct ExUnboundedSender<T>(tokio::sync::mpsc::UnboundedSender<T>);

/// The queue on which a member's connection takes the messages for it.
pub type ClientSender = tokio::sync::mpsc::UnboundedSender<ServerMessage>;

/// A member's queue, with the record of the messages handed to it.
pub struct Outbox {
    tx: ClientSender,
    log: Ghost<Seq<ServerMessage>>,
}

impl Outbox {
    pub closed spec fn queue(&self) -> ClientSender {
        self.tx
    }

    /// The messages handed to the queue so far, oldest first.
    pub closed spec fn handed(&self) -> Seq<ServerMessage> {
        self.log@
    }

    pub fn new(tx: ClientSender) -> (r: Outbox)
        ensures
            r.queue() == tx,
            r.handed() == Seq::<ServerMessage>::empty(),
    {
        Outbox { tx, log: Ghost(Seq::empty()) }
    }
}

/// Relies on tokio's `UnboundedSender::send`: it puts `msg` on the queue
/// without waiting, and reports whether the receiving side was still open.
/// Either way `msg` is recorded as handed to the queue, once.
#[verifier::external_body]
fn send_message(out: &mut Outbox, msg: ServerMessage) -> (delivered: bool)
    ensures
        final(out).queue() == old(out).queue(),
        final(out).handed() == old(out).handed().push(msg),
{
    out.tx.send(msg).is_ok()
}

/// The history after `entry` arrives: appended, and the oldest entries dropped
/// while there are more than `max`.
pub open spec fn bounded_push(h: Seq<ClipboardEntry>, entry: ClipboardEntry, max: nat) -> Seq<
    ClipboardEntry,
> {
    let s = h.push(entry);
    if s.len() > max {
        s.subrange(s.len() - max, s.len() as int)
    } else {
        s
    }
}

/// The history after each of `entries` arrives in order, starting from `h`.
pub open spec fn push_all(h: Seq<ClipboardEntry>, entries: Seq<ClipboardEntry>, max: nat) -> Seq<
    ClipboardEntry,
>
    decreases entries.len(),
{
    if entries.len() == 0 {
        h
    } else {
        bounded_push(push_all(h, entries.drop_last(), max), entries.last(), max)
    }
}

/// The ids of `ids` other than `excluded`, in order.
pub open spec fn others(ids: Seq<Seq<char>>, excluded: Seq<char>) -> Seq<Seq<char>>
    decreases ids.len(),
{
    if ids.len() == 0 {
        Seq::empty()
    } else if ids.last() == excluded {
        others(ids.drop_last(), excluded)
    } else {
        others(ids.drop_last(), excluded).push(ids.last())
    }
}

spec fn ids_of(clients: Seq<(String, Outbox)>) -> Seq<Seq<char>> {
    clients.map_values(|c: (String, Outbox)| c.0@)
}

/// The position of `id` among `clients`.
spec fn slot_in(clients: Seq<(String, Outbox)>, id: Seq<char>) -> int {
    choose|i: int| 0 <= i < clients.len() && clients[i].0@ == id
}

proof fn lemma_slot(clients: Seq<(String, Outbox)>, i: int)
    requires
        ids_of(clients).no_duplicates(),
        0 <= i < clients.len(),
    ensures
        slot_in(clients, clients[i].0@) == i,
{
    let j = slot_in(clients, clients[i].0@);
    assert(ids_of(clients)[i] == clients[i].0@);
    assert(ids_of(clients)[j] == clients[j].0@);
}

/// Every member of `a` is a member of `b`, with the same queue and the same
/// messages handed to it.
pub open spec fn keeps_queues(a: &Room, b: &Room) -> bool {
    forall|id: Seq<char>|
        #[trigger] a.members().contains(id) ==> b.members().contains(id) && b.queue_of(id) == a.queue_of(id)
            && b.handed_to(id) == a.handed_to(id)
}

/// What a broadcast of `entry` excluding `excluded` hands to the member `id`.
pub open spec fn broadcast_share(id: Seq<char>, excluded: Seq<char>, entry: ClipboardEntry) -> Seq<ServerMessage> {
    if id == excluded {
        Seq::empty()
    } else {
        seq![ServerMessage::ClipReceived { entry }]
    }
}

/// Every member of `a` but `except` is a member of `b`, with the same queue
/// and the same messages handed to it.
pub open spec fn keeps_others(a: &Room, b: &Room, except: Seq<char>) -> bool {
    forall|id: Seq<char>|
        #[trigger] a.members().contains(id) && id != except ==> b.members().contains(id) && b.queue_of(id)
            == a.queue_of(id) && b.handed_to(id) == a.handed_to(id)
}

/// The state of one group: its members' queues and its bounded history.
pub struct Room {
    clients: Vec<(String, Outbox)>,
    history: Vec<ClipboardEntry>,
    max_history: usize,
}

impl Room {
    /// The ids of the members, in the order they joined.
    pub closed spec fn member_ids(&self) -> Seq<Seq<char>> {
        ids_of(self.clients@)
    }

    /// The ids of the members.
    pub open spec fn members(&self) -> Set<Seq<char>> {
        self.member_ids().to_set()
    }

    pub closed spec fn history_view(&self) -> Seq<ClipboardEntry> {
        self.history@
    }

    pub closed spec fn capacity(&self) -> nat {
        self.max_history as nat
    }

    /// The queue registered for the member `id`.
    pub closed spec fn queue_of(&self, id: Seq<char>) -> ClientSender {
        self.clients@[slot_in(self.clients@, id)].1.queue()
    }

    /// The messages handed to the queue of the member `id` since it joined.
    pub closed spec fn handed_to(&self, id: Seq<char>) -> Seq<ServerMessage> {
        self.clients@[slot_in(self.clients@, id)].1.handed()
    }

    /// Each member appears once, and the history fits its capacity.
    #[verifier::type_invariant]
    spec fn wf(&self) -> bool {
        &&& self.member_ids().no_duplicates()
        &&& self.history@.len() <= self.max_history
    }

    /// An empty group whose history holds at most `max_history` entries.
    pub fn new(max_history: usize) -> (r: Room)
        ensures
            r.member_ids() == Seq::<Seq<char>>::empty(),
            r.history_view() == Seq::<ClipboardEntry>::empty(),
            r.capacity() == max_history,
    {
        let r = Room { clients: Vec::new(), history: Vec::new(), max_history };
        assert(r.member_ids() =~= Seq::<Seq<char>>::empty());
        r
    }

    fn position(&self, id: &String) -> (r: Option<usize>)
        ensures
            match r {
                Some(i) => i < self.clients@.len() && self.member_ids()[i as int] == id@,
                None => !self.member_ids().contains(id@),
            },
    {
        let mut i: usize = 0;
        while i < self.clients.len()
            invariant
                i <= self.clients@.len(),
                forall|j: int| 0 <= j < i ==> self.member_ids()[j] != id@,
            decreases self.clients@.len() - i,
        {
            if self.clients[i].0 == *id {
                return Some(i);
            }
            i = i + 1;
        }
        None
    }

    /// Registers `sender` as the queue of `device_id`; a queue it already had
    /// is replaced.
    pub fn add_client(&mut self, device_id: String, sender: ClientSender)
        ensures
            final(self).members() == old(self).members().insert(device_id@),
            old(self).members().contains(device_id@) ==> final(self).member_ids() == old(self).member_ids(),
            !old(self).members().contains(device_id@) ==> final(self).member_ids() == old(self).member_ids().push(device_id@),
            final(self).queue_of(device_id@) == sender,
            final(self).handed_to(device_id@) == Seq::<ServerMessage>::empty(),
            keeps_others(old(self), final(self), device_id@),
            final(self).history_view() == old(self).history_view(),
            final(self).capacity() == old(self).capacity(),
    {
        proof {
            use_type_invariant(&*self);
        }
        let ghost id = device_id@;
        let ghost ids = old(self).member_ids();
        let ghost c = self.clients@;
        let pos = self.position(&device_id);
        let mut clients: Vec<(String, Outbox)> = Vec::new();
        std::mem::swap(&mut clients, &mut self.clients);
        match pos {
            Some(i) => {
                clients.set(i, (device_id, Outbox::new(sender)));
                assert(ids_of(clients@) =~= ids);
                self.clients = clients;
                proof {
                    lemma_slot(self.clients@, i as int);
                    assert forall|x: Seq<char>| #[trigger] old(self).members().contains(x) && x != id implies
                        self.members().contains(x) && self.queue_of(x) == old(self).queue_of(x)
                        && self.handed_to(x) == old(self).handed_to(x) by {
                        let k = choose|k: int| 0 <= k < ids.len() && ids[k] == x;
                        assert(c[k].0@ == x);
                        lemma_slot(c, k);
                        assert(self.clients@[k].0@ == x);
                        lemma_slot(self.clients@, k);
                        assert(self.member_ids()[k] == x);
                    }
                }
                assert(self.clients@[i as int].0@ == id);
                assert(old(self).member_ids()[i as int] == id);
                assert(old(self).members().contains(id));
                assert(old(self).members().insert(id) =~= old(self).members());
            },
            None => {
                clients.push((device_id, Outbox::new(sender)));
                assert(ids_of(clients@) =~= ids.push(id));
                assert(ids_of(clients@)[ids.len() as int] == id);
                assert(ids_of(clients@).no_duplicates()) by {
                    let n = ids_of(clients@);
                    assert forall|j: int, k: int| 0 <= j < n.len() && 0 <= k < n.len() && j != k implies n[j] != n[k] by {
                        if j == ids.len() as int {
                            assert(ids[k] == n[k]);
                        } else if k == ids.len() as int {
                            assert(ids[j] == n[j]);
                        }
                    }
                }
                self.clients = clients;
                assert(self.clients@[self.clients@.len() - 1].0@ == id);
                proof {
                    lemma_slot(self.clients@, ids.len() as int);
                    assert forall|x: Seq<char>| #[trigger] old(self).members().contains(x) && x != id implies
                        self.members().contains(x) && self.queue_of(x) == old(self).queue_of(x)
                        && self.handed_to(x) == old(self).handed_to(x) by {
                        let k = choose|k: int| 0 <= k < ids.len() && ids[k] == x;
                        assert(c[k].0@ == x);
                        lemma_slot(c, k);
                        assert(self.clients@[k].0@ == x);
                        lemma_slot(self.clients@, k);
                        assert(self.member_ids()[k] == x);
                    }
                }
                assert forall|x: Seq<char>|
                    self.member_ids().contains(x) <==> (#[trigger] ids.contains(x) || x == id) by {
                    if ids.contains(x) {
                        let j = choose|j: int| 0 <= j < ids.len() && ids[j] == x;
                        assert(self.member_ids()[j] == x);
                    }
                    if self.member_ids().contains(x) {
                        let j = choose|j: int| 0 <= j < self.member_ids().len() && self.member_ids()[j] == x;
                        if j < ids.len() {
                            assert(ids[j] == x);
                        }
                    }
                }
                assert(self.members() =~= old(self).members().insert(id));
            },
        }
    }

    /// Removes `device_id` from the members, if it is one.
    pub fn remove_client(&mut self, device_id: &str)
        ensures
            final(self).members() == old(self).members().remove(device_id@),
            keeps_others(old(self), final(self), device_id@),
            final(self).history_view() == old(self).history_view(),
            final(self).capacity() == old(self).capacity(),
    {
        proof {
            use_type_invariant(&*self);
        }
        let ghost c = self.clients@;
        let key = String::from_str(device_id);
        match self.position(&key) {
            Some(i) => {
                let ghost ids = old(self).member_ids();
                let mut clients: Vec<(String, Outbox)> = Vec::new();
                std::mem::swap(&mut clients, &mut self.clients);
                clients.remove(i);
                assert(ids_of(clients@) =~= ids.remove(i as int));
                assert(ids_of(clients@).no_duplicates()) by {
                    let n = ids_of(clients@);
                    assert forall|j: int, k: int|
                        0 <= j < n.len() && 0 <= k < n.len() && j != k
                        implies n[j] != n[k] by {
                        let oj = if j < i { j } else { j + 1 };
                        let ok = if k < i { k } else { k + 1 };
                        assert(n[j] == ids[oj]);
                        assert(n[k] == ids[ok]);
                    }
                }
                self.clients = clients;
                assert(self.members() =~= old(self).members().remove(device_id@)) by {
                    assert forall|x: Seq<char>| #[trigger] self.members().contains(x) <==> old(self).members().contains(x) && x != device_id@ by {
                        if self.members().contains(x) {
                            let j = self.member_ids().index_of(x);
                            if j < i { assert(ids[j] == x); } else { assert(ids[j + 1] == x); }
                        }
                        if old(self).members().contains(x) && x != device_id@ {
                            let j = ids.index_of(x);
                            if j < i { assert(self.member_ids()[j] == x); } else { assert(self.member_ids()[j - 1] == x); }
                        }
                    }
                }
                proof {
                    assert forall|x: Seq<char>| #[trigger] old(self).members().contains(x) && x != device_id@ implies
                        self.members().contains(x) && self.queue_of(x) == old(self).queue_of(x)
                        && self.handed_to(x) == old(self).handed_to(x) by {
                        let k = choose|k: int| 0 <= k < ids.len() && ids[k] == x;
                        assert(c[k].0@ == x);
                        lemma_slot(c, k);
                        assert(k != i);
                        let k2 = if k < i { k } else { k - 1 };
                        assert(self.clients@[k2] == c[k]);
                        lemma_slot(self.clients@, k2);
                    }
                }
            },
            None => {
                assert(self.members() =~= old(self).members().remove(device_id@));
            },
        }
    }

    /// A copy of the history, oldest first.
    pub fn get_history(&self) -> (r: Vec<ClipboardEntry>)
        ensures
            r@ == self.history_view(),
            r@.len() <= self.capacity(),
    {
        proof {
            use_type_invariant(self);
        }
        crate::protocol::copy_entries(&self.history)
    }

    /// Appends `entry` to the history, dropping the oldest entry when the
    /// history would exceed its capacity.
    pub fn add_to_history(&mut self, entry: ClipboardEntry)
        ensures
            final(self).history_view() == bounded_push(old(self).history_view(), entry, old(self).capacity()),
            final(self).member_ids() == old(self).member_ids(),
            final(self).capacity() == old(self).capacity(),
            keeps_queues(old(self), final(self)),
    {
        proof {
            use_type_invariant(&*self);
        }
        let ghost h = self.history@;
        let mut history: Vec<ClipboardEntry> = Vec::new();
        std::mem::swap(&mut history, &mut self.history);
        history.push(entry);
        if history.len() > self.max_history {
            history.remove(0);
            assert(history@ =~= h.push(entry).subrange(1, h.len() as int + 1));
        }
        assert(history@ =~= bounded_push(h, entry, self.max_history as nat));
        self.history = history;
    }

    /// Hands a `ClipReceived` of `entry` to the queue of every member but
    /// `sender_device_id`, once each, and nothing to that member; returns the
    /// ids it was handed to, in join order. A queue that is closed is passed
    /// over without retry.
    pub fn broadcast(&mut self, entry: ClipboardEntry, sender_device_id: &str) -> (r: Vec<String>)
        ensures
            final(self).member_ids() == old(self).member_ids(),
            final(self).history_view() == old(self).history_view(),
            final(self).capacity() == old(self).capacity(),
            forall|id: Seq<char>| #[trigger] old(self).members().contains(id) ==> final(self).queue_of(id)
                == old(self).queue_of(id) && final(self).handed_to(id) == old(self).handed_to(id)
                + broadcast_share(id, sender_device_id@, entry),
            r@.map_values(|s: String| s@) == others(old(self).member_ids(), sender_device_id@),
            !r@.map_values(|s: String| s@).contains(sender_device_id@),
            r@.map_values(|s: String| s@).no_duplicates(),
            r@.map_values(|s: String| s@).to_set() == old(self).members().remove(sender_device_id@),
    {
        proof {
            use_type_invariant(&*self);
            lemma_broadcast_reaches_others(self.member_ids(), sender_device_id@);
        }
        let ghost c = self.clients@;
        let ghost ids = self.member_ids();
        let ghost ex = sender_device_id@;
        let ghost e = entry;
        let message = ServerMessage::clip_received(entry);
        let excluded = String::from_str(sender_device_id);
        let mut reached: Vec<String> = Vec::new();
        let mut rest: Vec<(String, Outbox)> = Vec::new();
        std::mem::swap(&mut rest, &mut self.clients);
        let n = rest.len();
        let mut done: Vec<(String, Outbox)> = Vec::new();
        while rest.len() > 0
            invariant
                done@.len() + rest@.len() == n,
                n == c.len(),
                excluded@ == ex,
                message == (ServerMessage::ClipReceived { entry: e }),
                forall|j: int| 0 <= j < rest@.len() ==> rest@[j] == c[done@.len() + j],
                forall|j: int|
                    0 <= j < done@.len() ==> (#[trigger] done@[j]).0 == c[j].0 && done@[j].1.queue()
                        == c[j].1.queue() && done@[j].1.handed() == c[j].1.handed() + broadcast_share(
                        c[j].0@,
                        ex,
                        e,
                    ),
                reached@.map_values(|s: String| s@) == others(ids.subrange(0, done@.len() as int), ex),
                ids == ids_of(c),
                self.history@ == old(self).history@,
                self.max_history == old(self).max_history,
            decreases rest@.len(),
        {
            let ghost i = done@.len() as int;
            let ghost prefix = ids.subrange(0, i);
            assert(ids.subrange(0, i + 1).drop_last() =~= prefix);
            assert(ids[i] == c[i].0@);
            let (id, mut out) = rest.remove(0);
            if id != excluded {
                let _ = send_message(&mut out, message.clone());
                reached.push(id.clone());
                assert(reached@.map_values(|s: String| s@) =~= others(prefix, ex).push(c[i].0@));
                assert(out.handed() =~= c[i].1.handed() + broadcast_share(c[i].0@, ex, e));
            } else {
                assert(out.handed() =~= c[i].1.handed() + broadcast_share(c[i].0@, ex, e));
            }
            done.push((id, out));
        }
        assert(ids.subrange(0, n as int) =~= ids);
        assert(ids_of(done@) =~= ids);
        self.clients = done;
        proof {
            assert forall|x: Seq<char>| #[trigger] old(self).members().contains(x) implies self.queue_of(x)
                == old(self).queue_of(x) && self.handed_to(x) == old(self).handed_to(x)
                + broadcast_share(x, ex, e) by {
                let k = choose|k: int| 0 <= k < ids.len() && ids[k] == x;
                assert(c[k].0@ == x);
                lemma_slot(c, k);
                assert(self.clients@[k].0@ == x);
                lemma_slot(self.clients@, k);
            }
        }
        reached
    }

    /// Joins `device_id` to the group: takes the history as it stands, then
    /// registers `sender`, and returns the `Joined` reply with that history.
    /// The reply holds no entry sent after the join, and every later
    /// broadcast reaches the new member.
    pub fn join_member(&mut self, device_id: String, sender: ClientSender) -> (r: ServerMessage)
        ensures
            r matches ServerMessage::Joined { history } && history@ == old(self).history_view(),
            final(self).members() == old(self).members().insert(device_id@),
            final(self).queue_of(device_id@) == sender,
            final(self).handed_to(device_id@) == Seq::<ServerMessage>::empty(),
            keeps_others(old(self), final(self), device_id@),
            final(self).history_view() == old(self).history_view(),
            final(self).capacity() == old(self).capacity(),
    {
        let history = self.get_history();
        self.add_client(device_id, sender);
        ServerMessage::joined(history)
    }

    /// Takes a new item from `sender_device_id`: appends it to the history and
    /// broadcasts it to the other members in one step, and returns the `Ack`
    /// for the sender with the ids that the item was handed to.
    pub fn publish(&mut self, entry: ClipboardEntry, sender_device_id: &str) -> (r: (
        ServerMessage,
        Vec<String>,
    ))
        ensures
            r.0 == (ServerMessage::Ack { timestamp: entry.timestamp }),
            r.1@.map_values(|s: String| s@) == others(old(self).member_ids(), sender_device_id@),
            final(self).history_view() == bounded_push(old(self).history_view(), entry, old(self).capacity()),
            final(self).member_ids() == old(self).member_ids(),
            final(self).capacity() == old(self).capacity(),
            forall|id: Seq<char>| #[trigger] old(self).members().contains(id) ==> final(self).queue_of(id)
                == old(self).queue_of(id) && final(self).handed_to(id) == old(self).handed_to(id)
                + broadcast_share(id, sender_device_id@, entry),
    {
        let timestamp = entry.timestamp;
        self.add_to_history(entry.clone());
        let reached = self.broadcast(entry, sender_device_id);
        (ServerMessage::Ack { timestamp }, reached)
    }

    /// The `History` reply: the group's history, oldest first.
    pub fn history_reply(&self) -> (r: ServerMessage)
        ensures
            r matches ServerMessage::History { entries } && entries@ == self.history_view(),
    {
        ServerMessage::History { entries: self.get_history() }
    }

    /// Whether the group has no members.
    pub fn is_empty(&self) -> (r: bool)
        ensures
            r == (self.members() == Set::<Seq<char>>::empty()),
    {
        proof {
            use_type_invariant(self);
            self.member_ids().unique_seq_to_set();
            if self.member_ids().len() > 0 {
                assert(self.members().contains(self.member_ids()[0]));
            } else {
                assert(self.members() =~= Set::<Seq<char>>::empty());
            }
        }
        self.clients.len() == 0
    }

    /// The number of members.
    pub fn client_count(&self) -> (r: usize)
        ensures
            r == self.members().len(),
    {
        proof {
            use_type_invariant(self);
            self.member_ids().unique_seq_to_set();
        }
        self.clients.len()
    }
}

/// The `min(n, max)` last entries of `s`, in order, where `n` is its length.
pub open spec fn latest(s: Seq<ClipboardEntry>, max: nat) -> Seq<ClipboardEntry> {
    if s.len() > max {
        s.subrange(s.len() - max, s.len() as int)
    } else {
        s
    }
}

/// History is bounded and first in, first out: from a history within its
/// capacity, any run of arrivals leaves exactly the most recent entries of
/// the old history followed by the arrivals, at most `max` of them, oldest
/// first.
pub proof fn lemma_history_fifo(h: Seq<ClipboardEntry>, entries: Seq<ClipboardEntry>, max: nat)
    requires
        h.len() <= max,
    ensures
        push_all(h, entries, max) == latest(h + entries, max),
        push_all(h, entries, max).len() <= max,
    decreases entries.len(),
{
    if entries.len() == 0 {
        assert(h + entries =~= h);
    } else {
        let prev = entries.drop_last();
        lemma_history_fifo(h, prev, max);
        let all = h + entries;
        assert(h + prev =~= all.drop_last());
        let w = latest(all.drop_last(), max);
        if all.len() - 1 > max {
            assert(w.push(entries.last()).subrange(1, w.len() as int + 1) =~= all.subrange(
                all.len() - max,
                all.len() as int,
            ));
        } else if all.len() - 1 == max {
            assert(w =~= all.drop_last());
            assert(w.push(entries.last()).subrange(1, w.len() as int + 1) =~= all.subrange(
                all.len() - max,
                all.len() as int,
            ));
        } else {
            assert(w.push(entries.last()) =~= all);
        }
    }
}

/// A device that joins a fresh group after `entries` were sent sees the
/// `min(n, max)` most recent of them, in the order they arrived.
pub proof fn lemma_late_joiner_history(entries: Seq<ClipboardEntry>, max: nat)
    ensures
        push_all(Seq::empty(), entries, max) == latest(entries, max),
        push_all(Seq::empty(), entries, max).len() == if entries.len() > max {
            max
        } else {
            entries.len()
        },
{
    lemma_history_fifo(Seq::empty(), entries, max);
    assert(Seq::<ClipboardEntry>::empty() + entries =~= entries);
}

/// A broadcast never reaches the sender and reaches every other member
/// exactly once.
pub proof fn lemma_broadcast_reaches_others(ids: Seq<Seq<char>>, excluded: Seq<char>)
    requires
        ids.no_duplicates(),
    ensures
        !others(ids, excluded).contains(excluded),
        others(ids, excluded).no_duplicates(),
        others(ids, excluded).to_set() == ids.to_set().remove(excluded),
    decreases ids.len(),
{
    if ids.len() == 0 {
        assert(ids.to_set() =~= Set::empty());
        assert(others(ids, excluded).to_set() =~= Set::empty());
    } else {
        let prev = ids.drop_last();
        assert(prev.no_duplicates());
        lemma_broadcast_reaches_others(prev, excluded);
        let o = others(prev, excluded);
        assert forall|x: Seq<char>| #[trigger] ids.contains(x) <==> (prev.contains(x) || x == ids.last()) by {
            if ids.contains(x) {
                let j = choose|j: int| 0 <= j < ids.len() && ids[j] == x;
                if j < prev.len() {
                    assert(prev[j] == x);
                }
            }
            if prev.contains(x) {
                let j = choose|j: int| 0 <= j < prev.len() && prev[j] == x;
                assert(ids[j] == x);
            }
        }
        assert(!prev.contains(ids.last())) by {
            if prev.contains(ids.last()) {
                let j = choose|j: int| 0 <= j < prev.len() && prev[j] == ids.last();
                assert(ids[j] == ids[ids.len() - 1]);
            }
        }
        if ids.last() == excluded {
            assert(others(ids, excluded).to_set() =~= ids.to_set().remove(excluded));
        } else {
            let n = o.push(ids.last());
            assert(!o.contains(ids.last())) by {
                if o.contains(ids.last()) {
                    assert(o.to_set().contains(ids.last()));
                }
            }
            assert forall|x: Seq<char>| #[trigger] n.contains(x) <==> (o.contains(x) || x == ids.last()) by {
                if n.contains(x) {
                    let j = choose|j: int| 0 <= j < n.len() && n[j] == x;
                    if j < o.len() {
                        assert(o[j] == x);
                    }
                }
                if o.contains(x) {
                    let j = choose|j: int| 0 <= j < o.len() && o[j] == x;
                    assert(n[j] == x);
                }
                assert(n[o.len() as int] == ids.last());
            }
            assert(n.no_duplicates()) by {
                assert forall|j: int, k: int| 0 <= j < n.len() && 0 <= k < n.len() && j != k implies n[j] != n[k] by {
                    if j == o.len() as int {
                        assert(o.contains(n[k]));
                    } else if k == o.len() as int {
                        assert(o.contains(n[j]));
                    }
                }
            }
            assert(n.to_set() =~= ids.to_set().remove(excluded)) by {
                assert forall|x: Seq<char>| n.to_set().contains(x) <==> ids.to_set().remove(excluded).contains(x) by {
                    assert(o.to_set().contains(x) == o.contains(x));
                }
            }
        }
    }
}

} // verus!
