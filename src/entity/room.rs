use vstd::prelude::*;

use super::player::{copies, ids_of, is_copy_of, Player, PlayerId};

verus! {

/// Identifier that a client chooses when it joins a room.
pub type RoomId = String;

/// Why a player was refused by a room.
#[derive(Clone, Debug, PartialEq, Eq)]
pub enum RoomError {
    AlreadyJoinedRoom(RoomId, PlayerId),
    RoomConfigDoesNotMatch(RoomId, PlayerId),
    RoomIsFull(RoomId, PlayerId),
}

/// Configuration fixed when a room is created. Two configurations are equal
/// when all their fields are.
#[derive(Clone, Copy, Debug, PartialEq, Eq, Structural)]
pub struct RoomConfig {
    pub max_players: u32,
}

impl RoomConfig {
    /// The configuration used when a join request names none.
    pub fn default() -> (r: RoomConfig)
        ensures
            r.max_players == 2,
    {
        RoomConfig { max_players: 2 }
    }
}

/// An event together with the players it is to be delivered to, each
/// recipient once per copy of the event it receives.
pub struct Dispatch<S, E> {
    pub event: E,
    pub recipients: Vec<Player<S>>,
}

impl<S, E> Dispatch<S, E> {
    /// Identifiers of the recipients, in delivery order.
    pub open spec fn recipient_ids(&self) -> Seq<Seq<char>> {
        ids_of(self.recipients@)
    }
}

/// One room: its configuration and its members, each with the sink through
/// which it is reached.
pub struct Room<S> {
    pub id: RoomId,
    pub config: RoomConfig,
    pub players: Vec<Player<S>>,
}

/// Identifiers of `targets` that are members, in the order of `targets`,
/// repeated where a target is repeated.
pub open spec fn present_targets(targets: Seq<Seq<char>>, members: Seq<Seq<char>>) -> Seq<Seq<char>>
    decreases targets.len(),
{
    if targets.len() == 0 {
        Seq::empty()
    } else {
        let rest = present_targets(targets.drop_last(), members);
        if members.contains(targets.last()) {
            rest.push(targets.last())
        } else {
            rest
        }
    }
}

/// The members after each identifier of `joins` has joined, in order.
pub open spec fn members_after_joins(start: Set<Seq<char>>, joins: Seq<Seq<char>>) -> Set<Seq<char>>
    decreases joins.len(),
{
    if joins.len() == 0 {
        start
    } else {
        members_after_joins(start, joins.drop_last()).insert(joins.last())
    }
}

/// The members after each identifier of `leaves` has left, in order.
pub open spec fn members_after_leaves(start: Set<Seq<char>>, leaves: Seq<Seq<char>>) -> Set<
    Seq<char>,
>
    decreases leaves.len(),
{
    if leaves.len() == 0 {
        start
    } else {
        members_after_leaves(start, leaves.drop_last()).remove(leaves.last())
    }
}

proof fn lemma_joins_add(start: Set<Seq<char>>, joins: Seq<Seq<char>>)
    ensures
        members_after_joins(start, joins) == start.union(joins.to_set()),
    decreases joins.len(),
{
    if joins.len() == 0 {
        assert(start.union(joins.to_set()) =~= start);
    } else {
        lemma_joins_add(start, joins.drop_last());
        joins.drop_last().lemma_push_to_set_commute(joins.last());
        assert(joins.drop_last().push(joins.last()) =~= joins);
        assert(members_after_joins(start, joins) =~= start.union(joins.to_set()));
    }
}

proof fn lemma_leaves_remove(start: Set<Seq<char>>, leaves: Seq<Seq<char>>)
    ensures
        members_after_leaves(start, leaves) == start.difference(leaves.to_set()),
    decreases leaves.len(),
{
    if leaves.len() == 0 {
        assert(start.difference(leaves.to_set()) =~= start);
    } else {
        lemma_leaves_remove(start, leaves.drop_last());
        leaves.drop_last().lemma_push_to_set_commute(leaves.last());
        assert(leaves.drop_last().push(leaves.last()) =~= leaves);
        assert(members_after_leaves(start, leaves) =~= start.difference(leaves.to_set()));
    }
}

/// Players that join an empty room and then all leave it leave it empty: a
/// room whose members are what remains has no member, so it stops and is
/// taken out of the room registry.
pub proof fn lemma_joins_then_leaves_empty<S>(
    joins: Seq<Seq<char>>,
    leaves: Seq<Seq<char>>,
    room: Room<S>,
)
    requires
        forall|id: Seq<char>| joins.contains(id) ==> leaves.contains(id),
        room.member_set() == members_after_leaves(
            members_after_joins(Set::empty(), joins),
            leaves,
        ),
    ensures
        room.member_set() == Set::<Seq<char>>::empty(),
        room.players@.len() == 0,
{
    lemma_joins_add(Set::empty(), joins);
    lemma_leaves_remove(members_after_joins(Set::empty(), joins), leaves);
    assert(room.member_set() =~= Set::<Seq<char>>::empty());
    if room.players@.len() > 0 {
        assert(room.member_ids().contains(room.member_ids()[0]));
        assert(room.member_set().contains(room.member_ids()[0]));
    }
}

impl<S> Room<S> {
    /// Identifiers of the members, in order of arrival.
    pub open spec fn member_ids(&self) -> Seq<Seq<char>> {
        ids_of(self.players@)
    }

    pub open spec fn has_member(&self, id: Seq<char>) -> bool {
        self.member_ids().contains(id)
    }

    /// At most one entry per player, and no more members than the
    /// configuration allows.
    pub open spec fn wf(&self) -> bool {
        &&& self.member_ids().no_duplicates()
        &&& self.players@.len() <= self.config.max_players
    }

    /// Set of the members' identifiers.
    pub open spec fn member_set(&self) -> Set<Seq<char>> {
        self.member_ids().to_set()
    }

    /// The error with which the room refuses `player_id` asking to join with
    /// `config`, if it refuses: a different configuration first, then a
    /// player already in, then a full room.
    pub open spec fn refusal(&self, player_id: PlayerId, config: RoomConfig) -> Option<RoomError> {
        if self.config != config {
            Some(RoomError::RoomConfigDoesNotMatch(self.id, player_id))
        } else if self.has_member(player_id@) {
            Some(RoomError::AlreadyJoinedRoom(self.id, player_id))
        } else if self.players@.len() >= self.config.max_players {
            Some(RoomError::RoomIsFull(self.id, player_id))
        } else {
            None
        }
    }

    /// The member whose identifier is `id`, where there is one.
    pub open spec fn member_named(&self, id: Seq<char>) -> Player<S> {
        self.players@[self.index_named(id)]
    }

    /// The position of the member whose identifier is `id`, where there is one.
    pub open spec fn index_named(&self, id: Seq<char>) -> int {
        choose|i: int| 0 <= i < self.players@.len() && self.players@[i].id@ == id
    }

    /// Identifiers are unique, so the member at `i` is the member named by
    /// its identifier.
    pub proof fn lemma_member_at(&self, i: int)
        requires
            self.wf(),
            0 <= i < self.players@.len(),
        ensures
            self.member_named(self.players@[i].id@) == self.players@[i],
    {
        let id = self.players@[i].id@;
        assert(self.players@[i].id@ == id);
        let j = self.index_named(id);
        assert(0 <= j < self.players@.len() && self.players@[j].id@ == id);
        assert(self.member_ids()[j] == self.players@[j].id@);
        assert(self.member_ids()[i] == self.players@[i].id@);
    }

    pub fn new(id: RoomId, config: RoomConfig) -> (r: Self)
        ensures
            r.id == id,
            r.config == config,
            r.players@.len() == 0,
            r.wf(),
    {
        Room { id, config, players: Vec::new() }
    }

    /// Position of the member with identifier `id`.
    fn position(&self, id: &PlayerId) -> (r: Option<usize>)
        ensures
            match r {
                Some(i) => i < self.players@.len() && self.players@[i as int].id@ == id@,
                None => !self.has_member(id@),
            },
            r is Some <==> self.has_member(id@),
    {
        let mut i: usize = 0;
        while i < self.players.len()
            invariant
                i <= self.players@.len(),
                forall|j: int| 0 <= j < i ==> self.players@[j].id@ != id@,
            decreases self.players@.len() - i,
        {
            if self.players[i].id == *id {
                assert(self.member_ids()[i as int] == id@);
                return Some(i);
            }
            i += 1;
        }
        assert(!self.member_ids().contains(id@)) by {
            if self.member_ids().contains(id@) {
                let j = choose|j: int| 0 <= j < self.member_ids().len() && self.member_ids()[j] == id@;
                assert(self.players@[j].id@ == id@);
            }
        }
        None
    }

    /// The error with which the room would refuse `player_id` asking to join
    /// with `config`, if it would.
    pub fn admission_error(&self, player_id: &PlayerId, config: &RoomConfig) -> (r: Option<RoomError>)
        requires
            self.wf(),
        ensures
            r == self.refusal(*player_id, *config),
    {
        if self.config != *config {
            return Some(RoomError::RoomConfigDoesNotMatch(self.id.clone(), player_id.clone()));
        }
        if self.position(player_id).is_some() {
            return Some(RoomError::AlreadyJoinedRoom(self.id.clone(), player_id.clone()));
        }
        if self.num_players() >= self.config.max_players {
            return Some(RoomError::RoomIsFull(self.id.clone(), player_id.clone()));
        }
        None
    }

    /// Admits `player` when `config` equals the room's configuration, the
    /// player is not a member yet and the room has a free place; otherwise
    /// the room is left as it was and the first of these that fails is the
    /// error.
    pub fn add_player(&mut self, player: Player<S>, config: &RoomConfig) -> (r: Result<(), RoomError>)
        requires
            old(self).wf(),
        ensures
            final(self).wf(),
            final(self).id == old(self).id,
            final(self).config == old(self).config,
            r == match old(self).refusal(player.id, *config) {
                Some(e) => Err(e),
                None => Ok(()),
            },
            r is Ok ==> final(self).players@ == old(self).players@.push(player),
            r is Ok ==> final(self).member_set() == old(self).member_set().insert(player.id@),
            r is Err ==> final(self).players@ == old(self).players@,
    {
        if let Some(e) = self.admission_error(&player.id, config) {
            return Err(e);
        }
        let ghost before = self.players@;
        let ghost pid = player.id@;
        self.players.push(player);
        assert(ids_of(self.players@) =~= ids_of(before).push(pid));
        assert(self.member_set() =~= ids_of(before).to_set().insert(pid)) by {
            ids_of(before).lemma_push_to_set_commute(pid)
        }
        Ok(())
    }

    /// Removes the member with identifier `player_id`; tells whether there
    /// was one.
    pub fn remove_player(&mut self, player_id: &PlayerId) -> (r: bool)
        requires
            old(self).wf(),
        ensures
            final(self).wf(),
            final(self).id == old(self).id,
            final(self).config == old(self).config,
            r == old(self).has_member(player_id@),
            !final(self).has_member(player_id@),
            r ==> exists|i: int|
                0 <= i < old(self).players@.len() && old(self).players@[i].id@ == player_id@
                    && final(self).players@ == old(self).players@.remove(i),
            !r ==> final(self).players@ == old(self).players@,
            final(self).member_set() == old(self).member_set().remove(player_id@),
    {
        match self.position(player_id) {
            Some(i) => {
                let ghost before = ids_of(self.players@);
                assert(before[i as int] == player_id@);
                self.players.remove(i);
                let ghost after = ids_of(self.players@);
                assert(after =~= before.remove(i as int));
                assert forall|x: Seq<char>| after.contains(x) <==> (before.contains(x) && x != player_id@) by {
                    if after.contains(x) {
                        let j = choose|j: int| 0 <= j < after.len() && after[j] == x;
                        if j < i {
                            assert(before[j] == x);
                        } else {
                            assert(before[j + 1] == x);
                        }
                    }
                    if before.contains(x) && x != player_id@ {
                        let j = choose|j: int| 0 <= j < before.len() && before[j] == x;
                        if j < i {
                            assert(after[j] == x);
                        } else {
                            assert(after[j - 1] == x);
                        }
                    }
                }
                assert(self.member_set() =~= before.to_set().remove(player_id@));
                true
            },
            None => {
                assert(self.member_set() =~= self.member_set().remove(player_id@));
                false
            },
        }
    }

    /// Number of members.
    pub fn num_players(&self) -> (r: u32)
        requires
            self.wf(),
        ensures
            r == self.players@.len(),
    {
        self.players.len() as u32
    }

    /// Whether `player_id` is a member.
    pub fn is_joined(&self, player_id: &PlayerId) -> (r: bool)
        ensures
            r == self.has_member(player_id@),
    {
        self.position(player_id).is_some()
    }
}

impl<S: Clone> Room<S> {
    /// Each of `recipients` reaches the member that bears its identifier,
    /// through that member's sink or a clone of it.
    pub open spec fn reaches_members(&self, recipients: Seq<Player<S>>) -> bool {
        forall|k: int|
            0 <= k < recipients.len() ==> self.has_member(#[trigger] recipients[k].id@)
                && is_copy_of(self.member_named(recipients[k].id@), recipients[k])
    }

    /// `event` addressed to every member, once each, through its own sink.
    pub fn broadcast<E>(&self, event: E) -> (r: Dispatch<S, E>)
        ensures
            r.event == event,
            r.recipient_ids() == self.member_ids(),
            copies(self.players@, r.recipients@),
    {
        let mut recipients: Vec<Player<S>> = Vec::new();
        let mut i: usize = 0;
        while i < self.players.len()
            invariant
                i <= self.players@.len(),
                ids_of(recipients@) == ids_of(self.players@.take(i as int)),
                copies(self.players@.take(i as int), recipients@),
            decreases self.players@.len() - i,
        {
            let p = self.players[i].copy_handle();
            proof {
                assert(self.players@.take(i + 1) =~= self.players@.take(i as int).push(self.players@[i as int]));
                assert(ids_of(recipients@.push(p)) =~= ids_of(recipients@).push(p.id@));
                assert(ids_of(self.players@.take(i + 1)) =~= ids_of(self.players@.take(i as int)).push(p.id@));
                assert forall|j: int| 0 <= j <= i implies #[trigger] is_copy_of(
                    self.players@.take(i + 1)[j],
                    recipients@.push(p)[j],
                ) by {
                    if j < i {
                        assert(is_copy_of(self.players@.take(i as int)[j], recipients@[j]));
                    }
                }
            }
            recipients.push(p);
            i += 1;
        }
        assert(self.players@.take(i as int) =~= self.players@);
        Dispatch { event, recipients }
    }

    /// `event` addressed to the member `player_id` alone, through its own
    /// sink; to nobody where it is no member.
    pub fn send<E>(&self, player_id: &PlayerId, event: E) -> (r: Dispatch<S, E>)
        requires
            self.wf(),
        ensures
            r.event == event,
            self.has_member(player_id@) ==> r.recipient_ids() == seq![player_id@],
            !self.has_member(player_id@) ==> r.recipients@.len() == 0,
            self.reaches_members(r.recipients@),
    {
        let mut recipients: Vec<Player<S>> = Vec::new();
        if let Some(i) = self.position(player_id) {
            let p = self.players[i].copy_handle();
            proof {
                self.lemma_member_at(i as int);
                assert(self.member_ids()[i as int] == player_id@);
            }
            recipients.push(p);
            assert(ids_of(recipients@) =~= seq![player_id@]);
        }
        Dispatch { event, recipients }
    }

    /// `event` addressed to each identifier of `targets` that is a member,
    /// in the order of `targets`, through that member's sink; identifiers
    /// that are no member are skipped.
    pub fn send_to_each<E>(&self, targets: &Vec<PlayerId>, event: E) -> (r: Dispatch<S, E>)
        requires
            self.wf(),
        ensures
            r.event == event,
            r.recipient_ids() == present_targets(targets@.map_values(|t: PlayerId| t@), self.member_ids()),
            self.reaches_members(r.recipients@),
    {
        let ghost tv = targets@.map_values(|t: PlayerId| t@);
        let mut recipients: Vec<Player<S>> = Vec::new();
        let mut k: usize = 0;
        while k < targets.len()
            invariant
                self.wf(),
                k <= targets@.len(),
                tv == targets@.map_values(|t: PlayerId| t@),
                ids_of(recipients@) == present_targets(tv.take(k as int), self.member_ids()),
                self.reaches_members(recipients@),
            decreases targets@.len() - k,
        {
            proof {
                assert(tv.take(k + 1).drop_last() =~= tv.take(k as int));
                assert(tv.take(k + 1).last() == targets@[k as int]@);
            }
            if let Some(i) = self.position(&targets[k]) {
                let p = self.players[i].copy_handle();
                proof {
                    assert(self.member_ids()[i as int] == targets@[k as int]@);
                    assert(ids_of(recipients@.push(p)) =~= ids_of(recipients@).push(p.id@));
                    self.lemma_member_at(i as int);
                    assert forall|m: int| 0 <= m < recipients@.push(p).len() implies self.has_member(
                        #[trigger] recipients@.push(p)[m].id@,
                    ) && is_copy_of(
                        self.member_named(recipients@.push(p)[m].id@),
                        recipients@.push(p)[m],
                    ) by {
                        if m < recipients@.len() {
                            assert(recipients@.push(p)[m] == recipients@[m]);
                        }
                    }
                }
                recipients.push(p);
            }
            k += 1;
        }
        assert(tv.take(k as int) =~= tv);
        Dispatch { event, recipients }
    }
}

} // verus!
