use vstd::prelude::*;

use crate::entity::player::PlayerId;
use crate::entity::room::RoomId;

verus! {

/// The identifiers of a sequence of strings, as character sequences.
pub open spec fn views(s: Seq<String>) -> Seq<Seq<char>> {
    s.map_values(|x: String| x@)
}

/// Position of `id` in `v`, if it is there.
fn position_of(v: &Vec<String>, id: &String) -> (r: Option<usize>)
    ensures
        match r {
            Some(i) => i < v@.len() && v@[i as int]@ == id@,
            None => !views(v@).contains(id@),
        },
        r is Some <==> views(v@).contains(id@),
{
    let mut i: usize = 0;
    while i < v.len()
        invariant
            i <= v@.len(),
            forall|j: int| 0 <= j < i ==> v@[j]@ != id@,
        decreases v@.len() - i,
    {
        if v[i] == *id {
            assert(views(v@)[i as int] == id@);
            return Some(i);
        }
        i += 1;
    }
    assert(!views(v@).contains(id@)) by {
        if views(v@).contains(id@) {
            let j = choose|j: int| 0 <= j < views(v@).len() && views(v@)[j] == id@;
            assert(v@[j]@ == id@);
        }
    }
    None
}

/// The players that are logged in, each once.
pub struct PlayerRegistry {
    pub ids: Vec<PlayerId>,
}

impl PlayerRegistry {
    pub open spec fn wf(&self) -> bool {
        views(self.ids@).no_duplicates()
    }

    /// The set of logged-in identifiers.
    pub open spec fn view(&self) -> Set<Seq<char>> {
        views(self.ids@).to_set()
    }

    pub fn new() -> (r: Self)
        ensures
            r.wf(),
            r.view() == Set::<Seq<char>>::empty(),
    {
        let r = PlayerRegistry { ids: Vec::new() };
        assert(r.view() =~= Set::<Seq<char>>::empty());
        r
    }

    pub fn is_logged_in(&self, id: &PlayerId) -> (r: bool)
        ensures
            r == self.view().contains(id@),
    {
        position_of(&self.ids, id).is_some()
    }

    /// Adds `id` unless it is present already; tells whether it was added.
    pub fn register_player(&mut self, id: PlayerId) -> (r: bool)
        requires
            old(self).wf(),
        ensures
            final(self).wf(),
            r == !old(self).view().contains(id@),
            final(self).view() == old(self).view().insert(id@),
    {
        if position_of(&self.ids, &id).is_some() {
            assert(self.view() =~= self.view().insert(id@));
            return false;
        }
        let ghost before = views(self.ids@);
        let ghost idv = id@;
        self.ids.push(id);
        assert(views(self.ids@) =~= before.push(idv));
        assert(self.view() =~= before.to_set().insert(idv)) by {
            before.lemma_push_to_set_commute(idv);
        }
        true
    }

    /// Removes `id` where it is present.
    pub fn unregister_player(&mut self, id: &PlayerId)
        requires
            old(self).wf(),
        ensures
            final(self).wf(),
            final(self).view() == old(self).view().remove(id@),
    {
        match position_of(&self.ids, id) {
            Some(i) => {
                let ghost before = views(self.ids@);
                assert(before[i as int] == id@);
                self.ids.remove(i);
                let ghost after = views(self.ids@);
                assert(after =~= before.remove(i as int));
                assert forall|x: Seq<char>| after.contains(x) <==> (before.contains(x) && x != id@) by {
                    if after.contains(x) {
                        let j = choose|j: int| 0 <= j < after.len() && after[j] == x;
                        if j < i {
                            assert(before[j] == x);
                        } else {
                            assert(before[j + 1] == x);
                        }
                    }
                    if before.contains(x) && x != id@ {
                        let j = choose|j: int| 0 <= j < before.len() && before[j] == x;
                        if j < i {
                            assert(after[j] == x);
                        } else {
                            assert(after[j - 1] == x);
                        }
                    }
                }
                assert(self.view() =~= before.to_set().remove(id@));
            },
            None => {
                assert(self.view() =~= self.view().remove(id@));
            },
        }
    }
}

/// The logged-in set after applying `ops` to `start` in order; an operation
/// is `(true, id)` for a login attempt and `(false, id)` for a logout.
pub open spec fn registry_after(start: Set<Seq<char>>, ops: Seq<(bool, Seq<char>)>) -> Set<Seq<char>>
    decreases ops.len(),
{
    if ops.len() == 0 {
        start
    } else {
        let prev = registry_after(start, ops.drop_last());
        if ops.last().0 {
            prev.insert(ops.last().1)
        } else {
            prev.remove(ops.last().1)
        }
    }
}

/// The login attempt at position `i` of `ops` succeeds.
pub open spec fn login_succeeds(start: Set<Seq<char>>, ops: Seq<(bool, Seq<char>)>, i: int) -> bool {
    &&& 0 <= i < ops.len()
    &&& ops[i].0
    &&& !registry_after(start, ops.take(i)).contains(ops[i].1)
}

/// After a login under `id` at position `i`, `id` stays logged in up to
/// position `m` where no logout of `id` lies in between.
proof fn lemma_held_until(start: Set<Seq<char>>, ops: Seq<(bool, Seq<char>)>, i: int, m: int)
    requires
        0 <= i < m <= ops.len(),
        ops[i].0,
        forall|k: int| i < k < m ==> ops[k] != (false, ops[i].1),
    ensures
        registry_after(start, ops.take(m)).contains(ops[i].1),
    decreases m - i,
{
    assert(ops.take(m).drop_last() =~= ops.take(m - 1));
    assert(ops.take(m).last() == ops[m - 1]);
    if m > i + 1 {
        lemma_held_until(start, ops, i, m - 1);
    }
}

/// An identifier is held by one session at a time: after a successful login
/// under `id`, no later login under `id` succeeds unless a logout of `id`
/// comes in between.
pub proof fn lemma_single_login(start: Set<Seq<char>>, ops: Seq<(bool, Seq<char>)>, i: int, j: int)
    requires
        i < j < ops.len(),
        login_succeeds(start, ops, i),
        ops[j].0,
        ops[j].1 == ops[i].1,
        forall|k: int| i < k < j ==> ops[k] != (false, ops[i].1),
    ensures
        !login_succeeds(start, ops, j),
{
    lemma_held_until(start, ops, i, j);
}

/// Between any two successful logins under one identifier lies a logout of
/// that identifier.
pub proof fn lemma_logins_separated_by_logout(start: Set<Seq<char>>, ops: Seq<(bool, Seq<char>)>)
    ensures
        forall|i: int, j: int|
            i < j && #[trigger] login_succeeds(start, ops, i) && #[trigger] login_succeeds(
                start,
                ops,
                j,
            ) && ops[j].1 == ops[i].1 ==> exists|k: int| i < k < j && ops[k] == (false, ops[i].1),
{
    assert forall|i: int, j: int|
        i < j && #[trigger] login_succeeds(start, ops, i) && #[trigger] login_succeeds(start, ops, j)
            && ops[j].1 == ops[i].1 implies exists|k: int| i < k < j && ops[k] == (false, ops[i].1) by {
        if !exists|k: int| i < k < j && ops[k] == (false, ops[i].1) {
            lemma_single_login(start, ops, i, j);
        }
    }
}

/// One entry of a table of rooms: a room and the handle on its inbound queue.
pub struct RoomChannel<H> {
    pub room_id: RoomId,
    pub handle: H,
}

/// Rooms keyed by identifier, each at most once, with a handle on each.
pub struct RoomChannels<H> {
    pub entries: Vec<RoomChannel<H>>,
}

impl<H> RoomChannels<H> {
    /// Identifiers of the rooms, in order of insertion.
    pub open spec fn keys(&self) -> Seq<Seq<char>> {
        self.entries@.map_values(|e: RoomChannel<H>| e.room_id@)
    }

    pub open spec fn wf(&self) -> bool {
        self.keys().no_duplicates()
    }

    pub open spec fn contains(&self, id: Seq<char>) -> bool {
        self.keys().contains(id)
    }

    /// The handle held for `id`, where `id` is present.
    pub open spec fn handle_of(&self, id: Seq<char>) -> H {
        self.entries@[choose|i: int| 0 <= i < self.entries@.len() && self.keys()[i] == id].handle
    }

    proof fn lemma_handle_at(&self, i: int)
        requires
            self.wf(),
            0 <= i < self.entries@.len(),
        ensures
            self.contains(self.keys()[i]),
            self.handle_of(self.keys()[i]) == self.entries@[i].handle,
    {
        let k = self.keys()[i];
        assert(self.keys()[i] == k);
        let j = choose|j: int| 0 <= j < self.entries@.len() && self.keys()[j] == k;
    }

    pub fn new() -> (r: Self)
        ensures
            r.wf(),
            r.entries@.len() == 0,
            forall|id: Seq<char>| !r.contains(id),
    {
        RoomChannels { entries: Vec::new() }
    }

    fn position(&self, id: &RoomId) -> (r: Option<usize>)
        ensures
            match r {
                Some(i) => i < self.entries@.len() && self.keys()[i as int] == id@,
                None => !self.contains(id@),
            },
            r is Some <==> self.contains(id@),
    {
        let mut i: usize = 0;
        while i < self.entries.len()
            invariant
                i <= self.entries@.len(),
                forall|j: int| 0 <= j < i ==> self.keys()[j] != id@,
            decreases self.entries@.len() - i,
        {
            if self.entries[i].room_id == *id {
                assert(self.keys()[i as int] == id@);
                return Some(i);
            }
            i += 1;
        }
        None
    }

    /// The handle of room `id`, if the room is present.
    pub fn get_room_channel(&self, id: &RoomId) -> (r: Option<&H>)
        requires
            self.wf(),
        ensures
            r is Some <==> self.contains(id@),
            r is Some ==> *r.unwrap() == self.handle_of(id@),
    {
        match self.position(id) {
            Some(i) => {
                proof {
                    self.lemma_handle_at(i as int);
                }
                Some(&self.entries[i].handle)
            },
            None => None,
        }
    }

    /// Keeps the handle of room `id` where the room is present; otherwise
    /// enters `fresh` under `id`. Tells whether `fresh` was entered.
    pub fn get_or_create_room_channel(&mut self, id: RoomId, fresh: H) -> (r: bool)
        requires
            old(self).wf(),
        ensures
            final(self).wf(),
            r == !old(self).contains(id@),
            final(self).contains(id@),
            !r ==> *final(self) == *old(self),
            r ==> final(self).handle_of(id@) == fresh,
            forall|k: Seq<char>| final(self).contains(k) <==> (old(self).contains(k) || k == id@),
            forall|k: Seq<char>|
                k != id@ && old(self).contains(k) ==> final(self).handle_of(k) == old(self).handle_of(k),
    {
        if self.position(&id).is_some() {
            return false;
        }
        let ghost before = *self;
        let ghost idv = id@;
        self.entries.push(RoomChannel { room_id: id, handle: fresh });
        proof {
            assert(self.keys() =~= before.keys().push(idv));
            let n = before.entries@.len() as int;
            assert(self.keys()[n] == idv);
            self.lemma_handle_at(n);
            assert forall|k: Seq<char>| self.contains(k) <==> (before.contains(k) || k == idv) by {
                if self.contains(k) {
                    let j = choose|j: int| 0 <= j < self.keys().len() && self.keys()[j] == k;
                    if j < n {
                        assert(before.keys()[j] == k);
                    }
                }
                if before.contains(k) {
                    let j = choose|j: int| 0 <= j < before.keys().len() && before.keys()[j] == k;
                    assert(self.keys()[j] == k);
                }
            }
            assert forall|k: Seq<char>|
                k != idv && before.contains(k) implies self.handle_of(k) == before.handle_of(k) by {
                let j = choose|j: int| 0 <= j < before.keys().len() && before.keys()[j] == k;
                before.lemma_handle_at(j);
                assert(self.keys()[j] == k);
                self.lemma_handle_at(j);
            }
        }
        true
    }

    /// Enters `handle` under `id`, replacing the handle held there before.
    pub fn insert(&mut self, id: RoomId, handle: H)
        requires
            old(self).wf(),
        ensures
            final(self).wf(),
            final(self).handle_of(id@) == handle,
            forall|k: Seq<char>| final(self).contains(k) <==> (old(self).contains(k) || k == id@),
            forall|k: Seq<char>|
                k != id@ && old(self).contains(k) ==> final(self).handle_of(k) == old(self).handle_of(k),
    {
        match self.position(&id) {
            Some(i) => {
                let ghost before = *self;
                self.entries.set(i, RoomChannel { room_id: id, handle });
                proof {
                    assert(self.keys() =~= before.keys());
                    self.lemma_handle_at(i as int);
                    assert forall|k: Seq<char>|
                        k != id@ && before.contains(k) implies self.handle_of(k) == before.handle_of(k) by {
                        let j = choose|j: int| 0 <= j < before.keys().len() && before.keys()[j] == k;
                        before.lemma_handle_at(j);
                        assert(self.keys()[j] == k);
                        self.lemma_handle_at(j);
                    }
                }
            },
            None => {
                self.get_or_create_room_channel(id, handle);
            },
        }
    }

    /// Removes room `id` where it is present; tells whether it was.
    pub fn remove_room_from_channels(&mut self, id: &RoomId) -> (r: bool)
        requires
            old(self).wf(),
        ensures
            final(self).wf(),
            r == old(self).contains(id@),
            forall|k: Seq<char>| final(self).contains(k) <==> (old(self).contains(k) && k != id@),
            forall|k: Seq<char>|
                k != id@ && old(self).contains(k) ==> final(self).handle_of(k) == old(self).handle_of(k),
    {
        match self.position(id) {
            Some(i) => {
                let ghost before = *self;
                proof {
                    before.lemma_handle_at(i as int);
                }
                self.entries.remove(i);
                proof {
                    assert(self.keys() =~= before.keys().remove(i as int));
                    assert forall|k: Seq<char>| self.contains(k) <==> (before.contains(k) && k != id@) by {
                        if self.contains(k) {
                            let j = choose|j: int| 0 <= j < self.keys().len() && self.keys()[j] == k;
                            if j < i {
                                assert(before.keys()[j] == k);
                            } else {
                                assert(before.keys()[j + 1] == k);
                            }
                        }
                        if before.contains(k) && k != id@ {
                            let j = choose|j: int| 0 <= j < before.keys().len() && before.keys()[j] == k;
                            if j < i {
                                assert(self.keys()[j] == k);
                            } else {
                                assert(self.keys()[j - 1] == k);
                            }
                        }
                    }
                    assert forall|k: Seq<char>|
                        k != id@ && before.contains(k) implies self.handle_of(k) == before.handle_of(k) by {
                        let j = choose|j: int| 0 <= j < before.keys().len() && before.keys()[j] == k;
                        before.lemma_handle_at(j);
                        if j < i {
                            assert(self.keys()[j] == k);
                            self.lemma_handle_at(j);
                        } else {
                            assert(self.keys()[j - 1] == k);
                            self.lemma_handle_at(j - 1);
                        }
                    }
                }
                true
            },
            None => false,
        }
    }
}

} // verus!
