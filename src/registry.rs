use vstd::prelude::*;
use std::sync::Arc;
use crate::group::Room;

verus! {

#[verifier::external_type_specification]
#[verifier::external_body]
#[verifier::reject_recursive_types(T)]
pub struct ExRwLock<T: ?Sized>(tokio::sync::RwLock<T>);

/// A group as shared by the registry and the connections that joined it.
pub type SharedRoom = Arc<tokio::sync::RwLock<Room>>;

/// Relies on tokio's `RwLock::new`: an unlocked lock around `room`.
#[verifier::external_body]
fn new_lock(room: Room) -> tokio::sync::RwLock<Room> {
    tokio::sync::RwLock::new(room)
}

/// Relies on `Arc::clone`: another handle on the same group.
#[verifier::external_body]
fn share(room: &SharedRoom) -> (r: SharedRoom)
    ensures
        r == *room,
{
    Arc::clone(room)
}

#[verifier::external_type_specification]
#[verifier::external_body]
#[verifier::reject_recursive_types(T)]
pub struct ExRwLockReadGuard<'a, T: ?Sized>(tokio::sync::RwLockReadGuard<'a, T>);

/// Relies on tokio's `RwLock::try_read`: shared access to the group without
/// waiting, or `None` where it is locked for writing at this moment.
#[verifier::external_body]
fn try_read_room<'a>(room: &'a SharedRoom) -> Option<tokio::sync::RwLockReadGuard<'a, Room>> {
    room.try_read().ok()
}

/// Relies on the `Deref` of tokio's `RwLockReadGuard`: the group it guards.
#[verifier::external_body]
fn guarded<'a, 'b>(guard: &'b tokio::sync::RwLockReadGuard<'a, Room>) -> &'b Room {
    guard
}

/// Whether the group has no members, or `None` where it cannot be read
/// without waiting.
fn probe_empty(room: &SharedRoom) -> Option<bool> {
    match try_read_room(room) {
        Some(g) => Some(guarded(&g).is_empty()),
        None => None,
    }
}

/// The ids of `ids` whose flag in `empty` is false, in order.
pub open spec fn kept(ids: Seq<Seq<char>>, empty: Seq<bool>) -> Seq<Seq<char>>
    recommends
        ids.len() == empty.len(),
    decreases ids.len(),
{
    if ids.len() == 0 {
        Seq::empty()
    } else if empty.last() {
        kept(ids.drop_last(), empty.drop_last())
    } else {
        kept(ids.drop_last(), empty.drop_last()).push(ids.last())
    }
}

/// The groups by group id.
pub struct RoomManager {
    rooms: Vec<(String, SharedRoom)>,
    max_history: usize,
}

impl RoomManager {
    /// The ids of the groups, oldest first.
    pub closed spec fn group_ids(&self) -> Seq<Seq<char>> {
        self.rooms@.map_values(|r: (String, SharedRoom)| r.0@)
    }

    /// The handle stored for the group `id`.
    pub closed spec fn handle_of(&self, id: Seq<char>) -> SharedRoom {
        self.rooms@[choose|i: int| 0 <= i < self.rooms@.len() && self.rooms@[i].0@ == id].1
    }

    /// The capacity that new groups get.
    pub closed spec fn capacity(&self) -> nat {
        self.max_history as nat
    }

    /// At most one group for each id.
    #[verifier::type_invariant]
    spec fn wf(&self) -> bool {
        self.group_ids().no_duplicates()
    }

    /// No groups yet; each group will keep `max_history` entries.
    pub fn new(max_history: usize) -> (r: RoomManager)
        ensures
            r.group_ids() == Seq::<Seq<char>>::empty(),
            r.capacity() == max_history,
    {
        let r = RoomManager { rooms: Vec::new(), max_history };
        assert(r.group_ids() =~= Seq::<Seq<char>>::empty());
        r
    }

    fn position(&self, id: &String) -> (r: Option<usize>)
        ensures
            match r {
                Some(i) => i < self.rooms@.len() && self.group_ids()[i as int] == id@,
                None => !self.group_ids().contains(id@),
            },
    {
        let mut i: usize = 0;
        while i < self.rooms.len()
            invariant
                i <= self.rooms@.len(),
                forall|j: int| 0 <= j < i ==> self.group_ids()[j] != id@,
            decreases self.rooms@.len() - i,
        {
            if self.rooms[i].0 == *id {
                return Some(i);
            }
            i = i + 1;
        }
        None
    }

    /// The group of `id`, if there is one.
    pub fn get_room(&self, id: &String) -> (r: Option<SharedRoom>)
        ensures
            self.group_ids().contains(id@) ==> r == Some(self.handle_of(id@)),
            !self.group_ids().contains(id@) ==> r is None,
    {
        proof {
            use_type_invariant(self);
        }
        match self.position(id) {
            Some(i) => {
                proof {
                    lemma_room_slot(self.rooms@, i as int);
                }
                Some(share(&self.rooms[i].1))
            },
            None => None,
        }
    }

    /// The group of `secret_hash`, created empty if there was none. Lookup
    /// and insertion are one step, so an id never gets a second group.
    pub fn get_or_create_room(&mut self, secret_hash: String) -> (r: SharedRoom)
        ensures
            old(self).group_ids().contains(secret_hash@) ==> final(self).group_ids() == old(self).group_ids(),
            !old(self).group_ids().contains(secret_hash@) ==> final(self).group_ids() == old(self).group_ids().push(secret_hash@),
            final(self).handle_of(secret_hash@) == r,
            forall|id: Seq<char>| #[trigger] old(self).group_ids().contains(id) ==> final(self).handle_of(id)
                == old(self).handle_of(id),
            final(self).capacity() == old(self).capacity(),
    {
        proof {
            use_type_invariant(&*self);
        }
        let ghost c = self.rooms@;
        match self.position(&secret_hash) {
            Some(i) => {
                proof {
                    lemma_room_slot(c, i as int);
                }
                share(&self.rooms[i].1)
            },
            None => {
                let ghost ids = self.group_ids();
                let room = Arc::new(new_lock(Room::new(self.max_history)));
                let handle = share(&room);
                let mut rooms: Vec<(String, SharedRoom)> = Vec::new();
                std::mem::swap(&mut rooms, &mut self.rooms);
                rooms.push((secret_hash, room));
                let ghost n = rooms@.map_values(|r: (String, SharedRoom)| r.0@);
                assert(n =~= ids.push(secret_hash@));
                assert(n.no_duplicates()) by {
                    assert forall|j: int, k: int|
                        0 <= j < n.len() && 0 <= k < n.len() && j != k
                        implies n[j] != n[k] by {
                        if j == ids.len() as int {
                            assert(ids[k] == n[k]);
                        } else if k == ids.len() as int {
                            assert(ids[j] == n[j]);
                        }
                    }
                }
                self.rooms = rooms;
                proof {
                    lemma_room_slot(self.rooms@, ids.len() as int);
                    assert forall|id: Seq<char>| #[trigger] ids.contains(id) implies self.handle_of(id)
                        == old(self).handle_of(id) by {
                        let k = choose|k: int| 0 <= k < ids.len() && ids[k] == id;
                        assert(c[k].0@ == id);
                        lemma_room_slot(c, k);
                        assert(self.rooms@[k] == c[k]);
                        lemma_room_slot(self.rooms@, k);
                    }
                }
                handle
            },
        }
    }

    /// Drops the groups whose flag in `empty` is set, keeping the others in
    /// order.
    pub fn sweep(&mut self, empty: &Vec<bool>)
        requires
            empty@.len() == old(self).group_ids().len(),
        ensures
            final(self).group_ids() == kept(old(self).group_ids(), empty@),
            forall|id: Seq<char>| #[trigger] final(self).group_ids().contains(id) ==> final(self).handle_of(id)
                == old(self).handle_of(id),
            final(self).capacity() == old(self).capacity(),
    {
        proof {
            use_type_invariant(&*self);
        }
        let ghost ids = self.group_ids();
        let ghost c = self.rooms@;
        let mut rest: Vec<(String, SharedRoom)> = Vec::new();
        std::mem::swap(&mut rest, &mut self.rooms);
        // The handles are moved, not cloned: first out back to front, then
        // taken front to back into the groups that stay.
        let n = rest.len();
        let mut rev: Vec<(String, SharedRoom)> = Vec::new();
        while rest.len() > 0
            invariant
                rest@.len() + rev@.len() == n,
                n == ids.len(),
                empty@.len() == n,
                forall|j: int| 0 <= j < rest@.len() ==> rest@[j] == c[j],
                forall|j: int| 0 <= j < rev@.len() ==> rev@[j] == c[n - 1 - j],
                c.len() == n,
                ids == c.map_values(|r: (String, SharedRoom)| r.0@),
            decreases rest@.len(),
        {
            let item = rest.pop().unwrap();
            rev.push(item);
        }
        let mut remaining: Vec<(String, SharedRoom)> = Vec::new();
        let mut i: usize = 0;
        while i < n
            invariant
                i <= n,
                n == ids.len(),
                empty@.len() == n,
                rev@.len() == n - i,
                forall|j: int| 0 <= j < rev@.len() ==> rev@[j] == c[n - 1 - j],
                forall|j: int| 0 <= j < remaining@.len() ==> c.contains(#[trigger] remaining@[j]),
                c.len() == n,
                ids == c.map_values(|r: (String, SharedRoom)| r.0@),
                remaining@.map_values(|r: (String, SharedRoom)| r.0@) == kept(ids.subrange(0, i as int), empty@.subrange(0, i as int)),
                self.max_history == old(self).max_history,
            decreases n - i,
        {
            let item = rev.pop().unwrap();
            assert(item == c[i as int]);
            assert(item.0@ == ids[i as int]);
            let ghost pre = ids.subrange(0, i as int);
            let ghost pe = empty@.subrange(0, i as int);
            assert(ids.subrange(0, i + 1).drop_last() =~= pre);
            assert(empty@.subrange(0, i + 1).drop_last() =~= pe);
            if !empty[i] {
                remaining.push(item);
                assert(remaining@.map_values(|r: (String, SharedRoom)| r.0@) =~= kept(pre, pe).push(ids[i as int]));
            }
            i = i + 1;
        }
        assert(ids.subrange(0, n as int) =~= ids);
        assert(empty@.subrange(0, n as int) =~= empty@);
        proof {
            lemma_kept_no_duplicates(ids, empty@);
        }
        self.rooms = remaining;
        proof {
            assert forall|id: Seq<char>| #[trigger] self.group_ids().contains(id) implies self.handle_of(id)
                == old(self).handle_of(id) by {
                let j = choose|j: int| 0 <= j < self.group_ids().len() && self.group_ids()[j] == id;
                assert(self.rooms@[j].0@ == id);
                lemma_room_slot(self.rooms@, j);
                assert(c.contains(self.rooms@[j]));
                let k = choose|k: int| 0 <= k < c.len() && c[k] == self.rooms@[j];
                assert(c[k].0@ == id);
                lemma_room_slot(c, k);
            }
        }
    }

    /// Drops every group that has no members. A group that is locked for
    /// writing at this moment is kept for a later pass, so the sweep never
    /// waits on a group nor drops one in the middle of a join.
    pub fn cleanup_empty_rooms(&mut self)
        ensures
            exists|empty: Seq<bool>| empty.len() == old(self).group_ids().len()
                && final(self).group_ids() == #[trigger] kept(old(self).group_ids(), empty),
            forall|id: Seq<char>| #[trigger] final(self).group_ids().contains(id) ==> final(self).handle_of(id)
                == old(self).handle_of(id),
            final(self).capacity() == old(self).capacity(),
    {
        let mut empty: Vec<bool> = Vec::new();
        let mut i: usize = 0;
        while i < self.rooms.len()
            invariant
                i <= self.rooms@.len(),
                empty@.len() == i,
            decreases self.rooms@.len() - i,
        {
            let probe = probe_empty(&self.rooms[i].1);
            empty.push(drop_flag(probe));
            i = i + 1;
        }
        self.sweep(&empty);
    }

    /// The number of groups and the number of members in the groups that
    /// could be read at this moment.
    pub fn get_stats(&self) -> (r: (usize, usize))
        ensures
            r.0 == self.group_ids().len(),
    {
        let mut counts: Vec<Option<usize>> = Vec::new();
        let mut i: usize = 0;
        while i < self.rooms.len()
            invariant
                i <= self.rooms@.len(),
            decreases self.rooms@.len() - i,
        {
            counts.push(probe_count(&self.rooms[i].1));
            i = i + 1;
        }
        (self.rooms.len(), total_members(&counts))
    }
}

/// The sum of the counts that are present.
pub open spec fn sum_counts(counts: Seq<Option<usize>>) -> nat
    decreases counts.len(),
{
    if counts.len() == 0 {
        0
    } else {
        sum_counts(counts.drop_last()) + match counts.last() {
            Some(c) => c as nat,
            None => 0,
        }
    }
}

/// The sum of the member counts that could be read, capped at `usize::MAX`.
pub fn total_members(counts: &Vec<Option<usize>>) -> (r: usize)
    ensures
        r == if sum_counts(counts@) > usize::MAX { usize::MAX as nat } else { sum_counts(counts@) },
{
    let mut total: usize = 0;
    let mut i: usize = 0;
    while i < counts.len()
        invariant
            i <= counts@.len(),
            total == if sum_counts(counts@.subrange(0, i as int)) > usize::MAX {
                usize::MAX as nat
            } else {
                sum_counts(counts@.subrange(0, i as int))
            },
        decreases counts@.len() - i,
    {
        assert(counts@.subrange(0, i + 1).drop_last() =~= counts@.subrange(0, i as int));
        if let Some(c) = counts[i] {
            total = if c <= usize::MAX - total { total + c } else { usize::MAX };
        }
        i = i + 1;
    }
    assert(counts@.subrange(0, counts@.len() as int) =~= counts@);
    total
}

/// The group's member count, or `None` where it cannot be read without
/// waiting.
fn probe_count(room: &SharedRoom) -> Option<usize> {
    match try_read_room(room) {
        Some(g) => Some(guarded(&g).client_count()),
        None => None,
    }
}

/// Whether a sweep drops a group whose probe gave `probe`: only when it was
/// read and found without members.
pub fn drop_flag(probe: Option<bool>) -> (r: bool)
    ensures
        r == (probe == Some(true)),
{
    match probe {
        Some(true) => true,
        _ => false,
    }
}

/// With unique ids, the group stored at `i` is the one found for its id.
proof fn lemma_room_slot(rooms: Seq<(String, SharedRoom)>, i: int)
    requires
        rooms.map_values(|r: (String, SharedRoom)| r.0@).no_duplicates(),
        0 <= i < rooms.len(),
    ensures
        (choose|j: int| 0 <= j < rooms.len() && rooms[j].0@ == rooms[i].0@) == i,
{
    let ids = rooms.map_values(|r: (String, SharedRoom)| r.0@);
    let j = choose|j: int| 0 <= j < rooms.len() && rooms[j].0@ == rooms[i].0@;
    assert(ids[i] == rooms[i].0@);
    assert(ids[j] == rooms[j].0@);
}

/// Dropping groups keeps ids unique.
proof fn lemma_kept_no_duplicates(ids: Seq<Seq<char>>, empty: Seq<bool>)
    requires
        ids.no_duplicates(),
        ids.len() == empty.len(),
    ensures
        kept(ids, empty).no_duplicates(),
        forall|x: Seq<char>| #[trigger] kept(ids, empty).contains(x) ==> ids.contains(x),
    decreases ids.len(),
{
    if ids.len() > 0 {
        let prev = ids.drop_last();
        assert(prev.no_duplicates());
        lemma_kept_no_duplicates(prev, empty.drop_last());
        let k = kept(prev, empty.drop_last());
        assert forall|x: Seq<char>| #[trigger] prev.contains(x) implies ids.contains(x) by {
            let j = choose|j: int| 0 <= j < prev.len() && prev[j] == x;
            assert(ids[j] == x);
        }
        assert(!prev.contains(ids.last())) by {
            if prev.contains(ids.last()) {
                let j = choose|j: int| 0 <= j < prev.len() && prev[j] == ids.last();
                assert(ids[j] == ids[ids.len() - 1]);
            }
        }
        if !empty.last() {
            let n = k.push(ids.last());
            assert(!k.contains(ids.last()));
            assert forall|x: Seq<char>| #[trigger] n.contains(x) implies ids.contains(x) by {
                let j = choose|j: int| 0 <= j < n.len() && n[j] == x;
                if j < k.len() {
                    assert(k[j] == x);
                    assert(k.contains(x));
                    assert(prev.contains(x));
                } else {
                    assert(ids[ids.len() - 1] == x);
                }
            }
            assert(n.no_duplicates()) by {
                assert forall|j: int, l: int| 0 <= j < n.len() && 0 <= l < n.len() && j != l implies n[j] != n[l] by {
                    if j == k.len() as int {
                        assert(k.contains(n[l]));
                    } else if l == k.len() as int {
                        assert(k.contains(n[j]));
                    }
                }
            }
        }
    }
}

} // verus!
