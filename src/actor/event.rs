use vstd::prelude::*;

use crate::entity::player::{Player, PlayerId};
use crate::entity::room::{RoomConfig, RoomError, RoomId};

verus! {

/// A session asks a room to admit its player, reached through `player.sender`.
#[derive(Clone, Debug)]
pub struct InputJoinEvent<S> {
    pub player: Player<S>,
    pub room_config: RoomConfig,
}

#[derive(Clone, Debug)]
pub struct InputLeaveEvent {
    pub player_id: PlayerId,
}

#[derive(Clone, Debug)]
pub struct InputMessageEvent {
    pub sender_player_id: PlayerId,
    pub target_ids: Vec<PlayerId>,
    pub body: Vec<u8>,
}

/// What a session sends to a room.
#[derive(Debug)]
pub enum InputEvent<S> {
    Join(InputJoinEvent<S>),
    Leave(InputLeaveEvent),
    Message(InputMessageEvent),
}

#[derive(Clone, Debug)]
pub struct OutputJoinEvent {
    pub room_id: RoomId,
    pub player_id: PlayerId,
    pub room_player_ids: Vec<PlayerId>,
    pub room_config: RoomConfig,
}

#[derive(Clone, Debug)]
pub struct OutputLeaveEvent {
    pub room_id: RoomId,
    pub player_id: PlayerId,
}

#[derive(Clone, Debug)]
pub struct OutputMessageEvent {
    pub room_id: RoomId,
    pub sender_player_id: PlayerId,
    pub body: Vec<u8>,
}

/// What a room sends to the sessions of its members.
#[derive(Debug)]
pub enum OutputEvent {
    Join(Result<OutputJoinEvent, RoomError>),
    Leave(OutputLeaveEvent),
    Message(OutputMessageEvent),
}

/// A copy of a list of identifiers.
pub fn copy_ids(v: &Vec<PlayerId>) -> (r: Vec<PlayerId>)
    ensures
        r@ == v@,
{
    let mut r: Vec<PlayerId> = Vec::new();
    let mut i: usize = 0;
    while i < v.len()
        invariant
            i <= v@.len(),
            r@ == v@.take(i as int),
        decreases v@.len() - i,
    {
        r.push(v[i].clone());
        assert(v@.take(i + 1) =~= v@.take(i as int).push(v@[i as int]));
        i += 1;
    }
    assert(v@.take(i as int) =~= v@);
    r
}

/// A copy of a message body.
pub fn copy_bytes(v: &Vec<u8>) -> (r: Vec<u8>)
    ensures
        r@ == v@,
{
    let mut r: Vec<u8> = Vec::new();
    let mut i: usize = 0;
    while i < v.len()
        invariant
            i <= v@.len(),
            r@ == v@.take(i as int),
        decreases v@.len() - i,
    {
        r.push(v[i]);
        assert(v@.take(i + 1) =~= v@.take(i as int).push(v@[i as int]));
        i += 1;
    }
    assert(v@.take(i as int) =~= v@);
    r
}

/// A copy of a room error.
pub fn copy_error(e: &RoomError) -> (r: RoomError)
    ensures
        r == *e,
{
    match e {
        RoomError::AlreadyJoinedRoom(room_id, player_id) => RoomError::AlreadyJoinedRoom(
            room_id.clone(),
            player_id.clone(),
        ),
        RoomError::RoomConfigDoesNotMatch(room_id, player_id) => RoomError::RoomConfigDoesNotMatch(
            room_id.clone(),
            player_id.clone(),
        ),
        RoomError::RoomIsFull(room_id, player_id) => RoomError::RoomIsFull(
            room_id.clone(),
            player_id.clone(),
        ),
    }
}

impl OutputEvent {
    /// `self` and `other` carry the same event: equal identifiers,
    /// configuration and error, and lists and bodies with equal contents.
    pub open spec fn same_as(&self, other: OutputEvent) -> bool {
        match (*self, other) {
            (OutputEvent::Join(Ok(x)), OutputEvent::Join(Ok(y))) => {
                &&& x.room_id == y.room_id
                &&& x.player_id == y.player_id
                &&& x.room_player_ids@ == y.room_player_ids@
                &&& x.room_config == y.room_config
            },
            (OutputEvent::Join(Err(x)), OutputEvent::Join(Err(y))) => x == y,
            (OutputEvent::Leave(x), OutputEvent::Leave(y)) => x == y,
            (OutputEvent::Message(x), OutputEvent::Message(y)) => {
                &&& x.room_id == y.room_id
                &&& x.sender_player_id == y.sender_player_id
                &&& x.body@ == y.body@
            },
            _ => false,
        }
    }

    /// A copy of the event, one for each recipient.
    pub fn duplicate(&self) -> (r: OutputEvent)
        ensures
            r.same_as(*self),
    {
        match self {
            OutputEvent::Join(Ok(ev)) => {
                let room_player_ids = copy_ids(&ev.room_player_ids);
                OutputEvent::Join(
                    Ok(
                        OutputJoinEvent {
                            room_id: ev.room_id.clone(),
                            player_id: ev.player_id.clone(),
                            room_player_ids,
                            room_config: ev.room_config,
                        },
                    ),
                )
            },
            OutputEvent::Join(Err(e)) => OutputEvent::Join(Err(copy_error(e))),
            OutputEvent::Leave(ev) => OutputEvent::Leave(
                OutputLeaveEvent { room_id: ev.room_id.clone(), player_id: ev.player_id.clone() },
            ),
            OutputEvent::Message(ev) => {
                let body = copy_bytes(&ev.body);
                OutputEvent::Message(
                    OutputMessageEvent {
                        room_id: ev.room_id.clone(),
                        sender_player_id: ev.sender_player_id.clone(),
                        body,
                    },
                )
            },
        }
    }
}

} // verus!
