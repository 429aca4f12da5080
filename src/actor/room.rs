use vstd::prelude::*;

use super::event::{
    InputEvent, InputJoinEvent, InputLeaveEvent, InputMessageEvent, OutputEvent, OutputJoinEvent,
    OutputLeaveEvent, OutputMessageEvent,
};
use super::registry::views;
use crate::entity;
use crate::entity::player::{copies, ids_of, is_copy_of};
use crate::entity::room::{
    lemma_joins_then_leaves_empty, members_after_joins, members_after_leaves, present_targets,
    Dispatch, RoomError,
};

verus! {

/// The owner of one room: it handles the room's inbound events one at a
/// time and says, for each, what is to be delivered to whom.
pub struct Room<S> {
    pub room: entity::room::Room<S>,
}

/// What handling one inbound event gives: the delivery to make, and whether
/// the room is now empty and stops.
pub struct RoomStep<S> {
    pub dispatch: Dispatch<S, OutputEvent>,
    pub terminated: bool,
}

/// `next` and `d` are what room `prev` becomes and delivers on `event`.
pub open spec fn join_step<S: Clone>(
    prev: entity::room::Room<S>,
    next: entity::room::Room<S>,
    event: InputJoinEvent<S>,
    d: Dispatch<S, OutputEvent>,
) -> bool {
    match prev.refusal(event.player.id, event.room_config) {
        Some(e) => {
            &&& next.players@ == prev.players@
            &&& d.event == OutputEvent::Join(Err(e))
            &&& d.recipient_ids() == seq![event.player.id@]
            &&& is_copy_of(event.player, d.recipients@[0])
        },
        None => {
            &&& next.players@ == prev.players@.push(event.player)
            &&& d.recipient_ids() == next.member_ids()
            &&& copies(next.players@, d.recipients@)
            &&& d.event matches OutputEvent::Join(Ok(j)) && j.room_id == prev.id && j.player_id
                == event.player.id && views(j.room_player_ids@) == next.member_ids()
                && j.room_config == prev.config
        },
    }
}

/// The leave announcement goes to every member, the leaver included, and
/// then the leaver is removed; a player that is no member changes nothing.
pub open spec fn leave_step<S: Clone>(
    prev: entity::room::Room<S>,
    next: entity::room::Room<S>,
    event: InputLeaveEvent,
    d: Dispatch<S, OutputEvent>,
) -> bool {
    &&& d.event == OutputEvent::Leave(
        OutputLeaveEvent { room_id: prev.id, player_id: event.player_id },
    )
    &&& if prev.has_member(event.player_id@) {
        &&& d.recipient_ids() == prev.member_ids()
        &&& copies(prev.players@, d.recipients@)
        &&& next.member_set() == prev.member_set().remove(event.player_id@)
        &&& exists|i: int|
            0 <= i < prev.players@.len() && prev.players@[i].id@ == event.player_id@
                && next.players@ == prev.players@.remove(i)
    } else {
        &&& d.recipients@.len() == 0
        &&& next.players@ == prev.players@
    }
}

/// A message goes to every member when it names no target, else to each
/// named target that is a member; the room does not change.
pub open spec fn message_step<S: Clone>(
    prev: entity::room::Room<S>,
    next: entity::room::Room<S>,
    event: InputMessageEvent,
    d: Dispatch<S, OutputEvent>,
) -> bool {
    &&& next.players@ == prev.players@
    &&& d.event == OutputEvent::Message(
        OutputMessageEvent {
            room_id: prev.id,
            sender_player_id: event.sender_player_id,
            body: event.body,
        },
    )
    &&& if event.target_ids@.len() == 0 {
        &&& d.recipient_ids() == prev.member_ids()
        &&& copies(prev.players@, d.recipients@)
    } else {
        &&& d.recipient_ids() == present_targets(views(event.target_ids@), prev.member_ids())
        &&& prev.reaches_members(d.recipients@)
    }
}

/// `next` and `d` are what room `prev` becomes and delivers on `event`.
pub open spec fn room_step<S: Clone>(
    prev: entity::room::Room<S>,
    next: entity::room::Room<S>,
    event: InputEvent<S>,
    d: Dispatch<S, OutputEvent>,
) -> bool {
    match event {
        InputEvent::Join(e) => join_step(prev, next, e, d),
        InputEvent::Leave(e) => leave_step(prev, next, e, d),
        InputEvent::Message(e) => message_step(prev, next, e, d),
    }
}

/// `rooms[k + 1]` and `ds[k]` are what `rooms[k]` becomes and delivers on
/// `events[k]`, for each event in turn.
pub open spec fn is_run<S: Clone>(
    rooms: Seq<entity::room::Room<S>>,
    events: Seq<InputEvent<S>>,
    ds: Seq<Dispatch<S, OutputEvent>>,
) -> bool {
    &&& rooms.len() == events.len() + 1
    &&& ds.len() == events.len()
    &&& forall|k: int| 0 <= k < events.len() ==> #[trigger] room_step(rooms[k], rooms[k + 1], events[k], ds[k])
}

/// The player each event is about: the joiner, the leaver or the sender.
pub open spec fn event_player<S>(e: InputEvent<S>) -> Seq<char> {
    match e {
        InputEvent::Join(j) => j.player.id@,
        InputEvent::Leave(l) => l.player_id@,
        InputEvent::Message(m) => m.sender_player_id@,
    }
}

pub open spec fn event_players<S>(events: Seq<InputEvent<S>>) -> Seq<Seq<char>> {
    events.map_values(|e: InputEvent<S>| event_player(e))
}

proof fn lemma_run_of_joins<S: Clone>(
    rooms: Seq<entity::room::Room<S>>,
    events: Seq<InputEvent<S>>,
    ds: Seq<Dispatch<S, OutputEvent>>,
    k: int,
)
    requires
        is_run(rooms, events, ds),
        0 <= k <= events.len(),
        forall|m: int| 0 <= m < k ==> #[trigger] ds[m].event matches OutputEvent::Join(Ok(_)),
        forall|m: int| 0 <= m < k ==> #[trigger] events[m] is Join,
    ensures
        rooms[k].member_set() == members_after_joins(rooms[0].member_set(), event_players(events.take(k))),
    decreases k,
{
    if k > 0 {
        lemma_run_of_joins(rooms, events, ds, k - 1);
        let m = k - 1;
        assert(room_step(rooms[m], rooms[m + 1], events[m], ds[m]));
        assert(events[m] is Join);
        assert(ds[m].event matches OutputEvent::Join(Ok(_)));
        let j = events[m]->Join_0;
        assert(rooms[m].refusal(j.player.id, j.room_config) is None);
        assert(rooms[k].member_ids() =~= rooms[m].member_ids().push(j.player.id@));
        rooms[m].member_ids().lemma_push_to_set_commute(j.player.id@);
        assert(event_players(events.take(k)).drop_last() =~= event_players(events.take(m)));
        assert(event_players(events.take(k)).last() == j.player.id@);
    } else {
        assert(event_players(events.take(0)) =~= Seq::<Seq<char>>::empty());
    }
}

proof fn lemma_run_of_leaves<S: Clone>(
    rooms: Seq<entity::room::Room<S>>,
    events: Seq<InputEvent<S>>,
    ds: Seq<Dispatch<S, OutputEvent>>,
    start: int,
    k: int,
)
    requires
        is_run(rooms, events, ds),
        0 <= start <= k <= events.len(),
        forall|m: int| start <= m < k ==> #[trigger] events[m] is Leave,
    ensures
        rooms[k].member_set() == members_after_leaves(
            rooms[start].member_set(),
            event_players(events.subrange(start, k)),
        ),
    decreases k - start,
{
    if k > start {
        lemma_run_of_leaves(rooms, events, ds, start, k - 1);
        let m = k - 1;
        assert(room_step(rooms[m], rooms[m + 1], events[m], ds[m]));
        assert(events[m] is Leave);
        let l = events[m]->Leave_0;
        if !rooms[m].has_member(l.player_id@) {
            assert(rooms[k].member_set() =~= rooms[m].member_set().remove(l.player_id@));
        }
        assert(event_players(events.subrange(start, k)).drop_last() =~= event_players(
            events.subrange(start, m),
        ));
        assert(event_players(events.subrange(start, k)).last() == l.player_id@);
    } else {
        assert(event_players(events.subrange(start, start)) =~= Seq::<Seq<char>>::empty());
    }
}

/// A room that starts empty, admits each of a sequence of joins, and then
/// sees a leave of each player that joined ends with no member: it stops,
/// and is taken out of the room registry.
pub proof fn lemma_joins_then_leaves_run_empty<S: Clone>(
    rooms: Seq<entity::room::Room<S>>,
    events: Seq<InputEvent<S>>,
    ds: Seq<Dispatch<S, OutputEvent>>,
    joins: int,
)
    requires
        is_run(rooms, events, ds),
        rooms[0].players@.len() == 0,
        0 <= joins <= events.len(),
        forall|m: int| 0 <= m < joins ==> #[trigger] events[m] is Join,
        forall|m: int| 0 <= m < joins ==> #[trigger] ds[m].event matches OutputEvent::Join(Ok(_)),
        forall|m: int| joins <= m < events.len() ==> #[trigger] events[m] is Leave,
        forall|m: int|
            0 <= m < joins ==> exists|n: int|
                joins <= n < events.len() && event_player(#[trigger] events[m]) == event_player(
                    events[n],
                ),
    ensures
        rooms.last().players@.len() == 0,
{
    let n = events.len() as int;
    lemma_run_of_joins(rooms, events, ds, joins);
    lemma_run_of_leaves(rooms, events, ds, joins, n);
    assert(rooms[0].member_set() =~= Set::<Seq<char>>::empty());
    let js = event_players(events.take(joins));
    let ls = event_players(events.subrange(joins, n));
    assert forall|id: Seq<char>| js.contains(id) implies ls.contains(id) by {
        let m = choose|m: int| 0 <= m < js.len() && js[m] == id;
        assert(js[m] == event_player(events[m]));
        let q = choose|q: int| joins <= q < events.len() && event_player(events[m]) == event_player(events[q]);
        assert(ls[q - joins] == event_player(events[q]));
    }
    assert(rooms.last() == rooms[n]);
    lemma_joins_then_leaves_empty(js, ls, rooms[n]);
}

/// Every Join(Ok) reaches every member, the joiner included, each through
/// its own sink.
pub proof fn lemma_join_reaches_every_member<S: Clone>(
    prev: entity::room::Room<S>,
    next: entity::room::Room<S>,
    event: InputJoinEvent<S>,
    d: Dispatch<S, OutputEvent>,
)
    requires
        join_step(prev, next, event, d),
        d.event matches OutputEvent::Join(Ok(_)),
    ensures
        d.recipient_ids().contains(event.player.id@),
        forall|id: Seq<char>| next.has_member(id) ==> d.recipient_ids().contains(id),
        is_copy_of(event.player, d.recipients@[prev.players@.len() as int]),
        forall|i: int|
            0 <= i < next.players@.len() ==> #[trigger] is_copy_of(next.players@[i], d.recipients@[i]),
{
    assert(is_copy_of(next.players@[prev.players@.len() as int], d.recipients@[prev.players@.len() as int]));
    assert(prev.refusal(event.player.id, event.room_config) is None);
    let n = prev.players@.len() as int;
    assert(next.member_ids()[n] == event.player.id@);
}

/// Every Leave(Ok) reaches every member, the leaver included, each through
/// its own sink.
pub proof fn lemma_leave_reaches_every_member<S: Clone>(
    prev: entity::room::Room<S>,
    next: entity::room::Room<S>,
    event: InputLeaveEvent,
    d: Dispatch<S, OutputEvent>,
)
    requires
        leave_step(prev, next, event, d),
        prev.has_member(event.player_id@),
    ensures
        d.recipient_ids().contains(event.player_id@),
        forall|id: Seq<char>| prev.has_member(id) ==> d.recipient_ids().contains(id),
        forall|i: int|
            0 <= i < prev.players@.len() ==> #[trigger] is_copy_of(prev.players@[i], d.recipients@[i]),
{
}

/// Joining with the room's configuration, as a newcomer, succeeds while a
/// place is free, which fills the room up to exactly its maximum; once the
/// room is full the join is refused as full and the room stays as it was.
pub proof fn lemma_join_at_capacity<S: Clone>(
    prev: entity::room::Room<S>,
    next: entity::room::Room<S>,
    event: InputJoinEvent<S>,
    d: Dispatch<S, OutputEvent>,
)
    requires
        prev.wf(),
        event.room_config == prev.config,
        !prev.has_member(event.player.id@),
        join_step(prev, next, event, d),
    ensures
        prev.players@.len() < prev.config.max_players ==> {
            &&& d.event matches OutputEvent::Join(Ok(_))
            &&& next.players@.len() == prev.players@.len() + 1
            &&& next.players@.len() <= prev.config.max_players
        },
        prev.players@.len() == prev.config.max_players ==> {
            &&& d.event == OutputEvent::Join(
                Err(RoomError::RoomIsFull(prev.id, event.player.id)),
            )
            &&& next.players@ == prev.players@
        },
{
}

/// Joining a room one has joined already is refused and changes nothing.
pub proof fn lemma_rejoin_refused<S: Clone>(
    prev: entity::room::Room<S>,
    next: entity::room::Room<S>,
    event: InputJoinEvent<S>,
    d: Dispatch<S, OutputEvent>,
)
    requires
        event.room_config == prev.config,
        prev.has_member(event.player.id@),
        join_step(prev, next, event, d),
    ensures
        d.event == OutputEvent::Join(
            Err(RoomError::AlreadyJoinedRoom(prev.id, event.player.id)),
        ),
        next.players@ == prev.players@,
{
}

/// Joining with another configuration than the room's is refused and
/// changes nothing.
pub proof fn lemma_config_mismatch_refused<S: Clone>(
    prev: entity::room::Room<S>,
    next: entity::room::Room<S>,
    event: InputJoinEvent<S>,
    d: Dispatch<S, OutputEvent>,
)
    requires
        event.room_config != prev.config,
        join_step(prev, next, event, d),
    ensures
        d.event == OutputEvent::Join(
            Err(RoomError::RoomConfigDoesNotMatch(prev.id, event.player.id)),
        ),
        next.players@ == prev.players@,
{
}

impl<S: Clone> Room<S> {
    pub open spec fn wf(&self) -> bool {
        self.room.wf()
    }

    pub fn new(room: entity::room::Room<S>) -> (r: Self)
        requires
            room.wf(),
        ensures
            r.room == room,
            r.wf(),
    {
        Room { room }
    }

    pub fn handle_join_event(&mut self, event: InputJoinEvent<S>) -> (r: Dispatch<S, OutputEvent>)
        requires
            old(self).wf(),
        ensures
            final(self).wf(),
            final(self).room.id == old(self).room.id,
            final(self).room.config == old(self).room.config,
            join_step(old(self).room, final(self).room, event, r),
    {
        match self.room.admission_error(&event.player.id, &event.room_config) {
            Some(e) => {
                let mut recipients: Vec<entity::player::Player<S>> = Vec::new();
                let ghost pid = event.player.id@;
                recipients.push(event.player);
                assert(ids_of(recipients@) =~= seq![pid]);
                Dispatch { event: OutputEvent::Join(Err(e)), recipients }
            },
            None => {
                let player_id = event.player.id.clone();
                let admitted = self.room.add_player(event.player, &event.room_config);
                assert(admitted is Ok);
                let room_player_ids = self.member_id_list();
                let output_event = OutputEvent::Join(
                    Ok(
                        OutputJoinEvent {
                            room_id: self.room.id.clone(),
                            player_id,
                            room_player_ids,
                            room_config: self.room.config,
                        },
                    ),
                );
                self.room.broadcast(output_event)
            },
        }
    }

    /// Identifiers of the members, in order of arrival.
    fn member_id_list(&self) -> (r: Vec<entity::player::PlayerId>)
        ensures
            views(r@) == self.room.member_ids(),
    {
        let mut r: Vec<entity::player::PlayerId> = Vec::new();
        let mut i: usize = 0;
        while i < self.room.players.len()
            invariant
                i <= self.room.players@.len(),
                views(r@) == self.room.member_ids().take(i as int),
            decreases self.room.players@.len() - i,
        {
            let id = self.room.players[i].id.clone();
            proof {
                assert(views(r@.push(id)) =~= views(r@).push(id@));
                assert(self.room.member_ids().take(i + 1) =~= self.room.member_ids().take(i as int).push(id@));
            }
            r.push(id);
            i += 1;
        }
        assert(self.room.member_ids().take(i as int) =~= self.room.member_ids());
        r
    }

    pub fn handle_leave_event(&mut self, event: InputLeaveEvent) -> (r: Dispatch<S, OutputEvent>)
        requires
            old(self).wf(),
        ensures
            final(self).wf(),
            final(self).room.id == old(self).room.id,
            final(self).room.config == old(self).room.config,
            leave_step(old(self).room, final(self).room, event, r),
    {
        let output_event = OutputEvent::Leave(
            OutputLeaveEvent { room_id: self.room.id.clone(), player_id: event.player_id.clone() },
        );
        if self.room.is_joined(&event.player_id) {
            let d = self.room.broadcast(output_event);
            self.room.remove_player(&event.player_id);
            d
        } else {
            Dispatch { event: output_event, recipients: Vec::new() }
        }
    }

    pub fn handle_message_event(&self, event: InputMessageEvent) -> (r: Dispatch<S, OutputEvent>)
        requires
            self.wf(),
        ensures
            message_step(self.room, self.room, event, r),
    {
        let output_event = OutputEvent::Message(
            OutputMessageEvent {
                room_id: self.room.id.clone(),
                sender_player_id: event.sender_player_id,
                body: event.body,
            },
        );
        if event.target_ids.len() == 0 {
            self.room.broadcast(output_event)
        } else {
            let d = self.room.send_to_each(&event.target_ids, output_event);
            assert(event.target_ids@.map_values(|t: entity::player::PlayerId| t@) == views(
                event.target_ids@,
            ));
            d
        }
    }

    /// Handles one inbound event. The room stops once it has no member; a
    /// room that goes on has between one member and as many as its
    /// configuration allows.
    pub fn handle(&mut self, event: InputEvent<S>) -> (r: RoomStep<S>)
        requires
            old(self).wf(),
        ensures
            final(self).wf(),
            final(self).room.id == old(self).room.id,
            final(self).room.config == old(self).room.config,
            room_step(old(self).room, final(self).room, event, r.dispatch),
            r.terminated == (final(self).room.players@.len() == 0),
            !r.terminated ==> 1 <= final(self).room.players@.len()
                <= final(self).room.config.max_players,
    {
        let dispatch = match event {
            InputEvent::Join(e) => self.handle_join_event(e),
            InputEvent::Leave(e) => self.handle_leave_event(e),
            InputEvent::Message(e) => self.handle_message_event(e),
        };
        let terminated = self.room.num_players() == 0;
        RoomStep { dispatch, terminated }
    }
}

} // verus!
