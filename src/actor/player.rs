use vstd::prelude::*;

use super::event::{
    InputEvent, InputJoinEvent, InputLeaveEvent, InputMessageEvent, OutputEvent, OutputJoinEvent,
};
use super::registry::{views, PlayerRegistry, RoomChannels};
use super::room::{join_step, lemma_join_reaches_every_member};
use crate::config::{Auth, Config};
use crate::entity;
use crate::entity::player::{is_copy_of, Player, PlayerId};
use crate::entity::room::{Dispatch, RoomConfig, RoomError, RoomId};
use crate::message::{
    error, error_is, no_error, AuthConfig, ClientData, ClientMessage, ErrorCode, JoinNotification,
    JoinResponse, LeaveNotification, LeaveResponse, LoginResponse, MessageNotification,
    ServerData, ServerMessage,
};

verus! {

/// `m` is a login response with the error `code` and the text `text`.
pub open spec fn is_login_response(m: ServerMessage, code: ErrorCode, text: Seq<char>) -> bool {
    m.data matches Some(ServerData::LoginResponse(res)) && error_is(res.error, code, text)
}

/// `m` is a refused join response for `room_id`: no players, no
/// configuration, and the error `code` with the text `text`.
pub open spec fn is_join_refusal(
    m: ServerMessage,
    room_id: RoomId,
    code: ErrorCode,
    text: Seq<char>,
) -> bool {
    m.data matches Some(ServerData::JoinResponse(res)) && res.room_id == room_id
        && res.current_players@.len() == 0 && res.room_config is None && error_is(
        res.error,
        code,
        text,
    )
}

/// `m` is a leave response for `room_id` with the error `code` and the text
/// `text`.
pub open spec fn is_leave_response(
    m: ServerMessage,
    room_id: RoomId,
    code: ErrorCode,
    text: Seq<char>,
) -> bool {
    m.data matches Some(ServerData::LeaveResponse(res)) && res.room_id == room_id && error_is(
        res.error,
        code,
        text,
    )
}

/// The login presents the bearer token that the server expects.
pub open spec fn authorized(auth_config: Option<AuthConfig>, auth: Auth) -> bool {
    auth_config matches Some(AuthConfig::Bearer(b)) && b.token@ == auth.bearer@
}

/// The code by which a client learns why a room refused it.
pub open spec fn join_error_code(e: RoomError) -> ErrorCode {
    match e {
        RoomError::AlreadyJoinedRoom(_, _) => ErrorCode::AlreadyJoinedTheRoom,
        RoomError::RoomConfigDoesNotMatch(_, _) => ErrorCode::RoomConfigDoesNotMatch,
        RoomError::RoomIsFull(_, _) => ErrorCode::RoomIsFull,
    }
}

/// The text that goes with `join_error_code(e)`.
pub open spec fn join_error_text(e: RoomError) -> Seq<char> {
    match e {
        RoomError::AlreadyJoinedRoom(_, _) => "Already joined the room"@,
        RoomError::RoomConfigDoesNotMatch(_, _) => "Room config does not match"@,
        RoomError::RoomIsFull(_, _) => "Room is full"@,
    }
}

/// The room that a refusal names.
pub open spec fn refused_room(e: RoomError) -> RoomId {
    match e {
        RoomError::AlreadyJoinedRoom(room_id, _) => room_id,
        RoomError::RoomConfigDoesNotMatch(room_id, _) => room_id,
        RoomError::RoomIsFull(room_id, _) => room_id,
    }
}

/// The configuration a join request asks for: the one it names, else the
/// default one.
pub open spec fn requested_config(c: Option<RoomConfig>) -> RoomConfig {
    match c {
        Some(c) => c,
        None => RoomConfig { max_players: 2 },
    }
}

/// `r` is what the session of player `own_id` tells its client on the
/// successful join `ev`: the joiner gets the member list and the room's
/// configuration, or a room-not-found refusal where the room is no longer
/// registered (`found` false); every other member gets a join notification.
pub open spec fn join_ok_reply(own_id: Seq<char>, ev: OutputJoinEvent, found: bool, r: ServerMessage) -> bool {
    if ev.player_id@ == own_id {
        if found {
            &&& r.data matches Some(ServerData::JoinResponse(res))
            &&& r.data->Some_0->JoinResponse_0.room_id == ev.room_id
            &&& r.data->Some_0->JoinResponse_0.current_players == ev.room_player_ids
            &&& r.data->Some_0->JoinResponse_0.room_config == Some(ev.room_config)
            &&& error_is(r.data->Some_0->JoinResponse_0.error, ErrorCode::Success, Seq::empty())
        } else {
            is_join_refusal(r, ev.room_id, ErrorCode::RoomNotFound, "Room was deleted during Join processing"@)
        }
    } else {
        r == ServerMessage {
            data: Some(
                ServerData::JoinNotification(
                    JoinNotification { room_id: ev.room_id, player_id: ev.player_id },
                ),
            ),
        }
    }
}

/// The players listed in a successful join are exactly those the Join(Ok)
/// is delivered to: the joiner, whose session answers its client with that
/// list while the room is registered, and every other member, whose session
/// answers its client with a join notification naming the joiner.
pub proof fn lemma_current_players_are_the_notified<S: Clone>(
    prev: entity::room::Room<S>,
    next: entity::room::Room<S>,
    event: InputJoinEvent<S>,
    d: Dispatch<S, OutputEvent>,
    i: int,
    found: bool,
    reply: ServerMessage,
)
    requires
        join_step(prev, next, event, d),
        d.event matches OutputEvent::Join(Ok(_)),
        0 <= i < d.recipients@.len(),
        join_ok_reply(d.recipient_ids()[i], d.event->Join_0->Ok_0, found, reply),
    ensures
        views(d.event->Join_0->Ok_0.room_player_ids@) == d.recipient_ids(),
        d.recipient_ids().contains(event.player.id@),
        is_copy_of(next.players@[i], d.recipients@[i]),
        d.recipient_ids()[i] != event.player.id@ ==> (reply == ServerMessage {
            data: Some(
                ServerData::JoinNotification(
                    JoinNotification { room_id: prev.id, player_id: event.player.id },
                ),
            ),
        }),
        d.recipient_ids()[i] == event.player.id@ && found ==> (reply.data matches Some(
            ServerData::JoinResponse(res),
        ) && res.room_id == prev.id && views(res.current_players@) == d.recipient_ids()),
{
    lemma_join_reaches_every_member(prev, next, event, d);
}

/// What a session that waits for its login does with one inbound message.
pub enum LoginStep {
    /// The message carried nothing: go on waiting.
    Wait,
    /// Not a login: end the session without a word.
    Close,
    /// Send the response, then end the session.
    Refuse(ServerMessage),
    /// The player is logged in under this identifier; send the response.
    Accept(PlayerId, ServerMessage),
}

/// What a logged-in session does with one message of its client.
pub enum ClientAction<S, H> {
    Nothing,
    Reply(ServerMessage),
    /// Find or create room `room_id` with `room_config` and send it `event`.
    /// Where the send fails, reply `room_removed_during_join(room_id)`.
    JoinRoom { room_id: RoomId, room_config: RoomConfig, event: InputEvent<S> },
    /// Send `event` to the room reached through `room`; a failed send is
    /// ignored.
    SendToRoom { room: H, event: InputEvent<S> },
}

pub fn send_login_ok() -> (r: ServerMessage)
    ensures
        is_login_response(r, ErrorCode::Success, Seq::empty()),
{
    ServerMessage { data: Some(ServerData::LoginResponse(LoginResponse { error: no_error() })) }
}

pub fn send_login_error(code: ErrorCode, text: &str) -> (r: ServerMessage)
    ensures
        is_login_response(r, code, text@),
{
    ServerMessage { data: Some(ServerData::LoginResponse(LoginResponse { error: error(code, text) })) }
}

fn join_refusal(room_id: RoomId, code: ErrorCode, text: &str) -> (r: ServerMessage)
    ensures
        is_join_refusal(r, room_id, code, text@),
{
    ServerMessage {
        data: Some(
            ServerData::JoinResponse(
                JoinResponse {
                    room_id,
                    current_players: Vec::new(),
                    room_config: None,
                    error: error(code, text),
                },
            ),
        ),
    }
}

/// The reply to a join whose room stopped before the join request reached it.
pub fn room_removed_during_join(room_id: RoomId) -> (r: ServerMessage)
    ensures
        is_join_refusal(r, room_id, ErrorCode::RoomNotFound, "Room was removed during Join processing"@),
{
    join_refusal(room_id, ErrorCode::RoomNotFound, "Room was removed during Join processing")
}

/// Whether `auth_config` presents the expected bearer token.
pub fn is_authorized(auth_config: &Option<AuthConfig>, auth: &Auth) -> (r: bool)
    ensures
        r == authorized(*auth_config, *auth),
{
    match auth_config {
        Some(AuthConfig::Bearer(b)) => b.token == auth.bearer,
        None => false,
    }
}

/// Handles one inbound message of a session that has not logged in yet.
/// A login is refused where its identifier is logged in already (the
/// registry is not touched) or where it lacks the expected token (the
/// identifier is entered and taken out again); otherwise the identifier is
/// entered and the login accepted.
pub fn wait_login(message: ClientMessage, players: &mut PlayerRegistry, config: &Config) -> (r:
    LoginStep)
    requires
        old(players).wf(),
    ensures
        final(players).wf(),
        match message.data {
            None => r is Wait && final(players).view() == old(players).view(),
            Some(ClientData::LoginRequest(req)) => if old(players).view().contains(
                req.player_id@,
            ) {
                &&& r matches LoginStep::Refuse(m) && is_login_response(
                    m,
                    ErrorCode::AlreadyLoggedIn,
                    "Already logged in"@,
                )
                &&& final(players).view() == old(players).view()
            } else if !authorized(req.auth_config, config.auth) {
                &&& r matches LoginStep::Refuse(m) && is_login_response(
                    m,
                    ErrorCode::Unauthorized,
                    "Unauthorized"@,
                )
                &&& final(players).view() == old(players).view()
            } else {
                &&& r matches LoginStep::Accept(id, m) && id == req.player_id && is_login_response(
                    m,
                    ErrorCode::Success,
                    Seq::empty(),
                )
                &&& final(players).view() == old(players).view().insert(req.player_id@)
            },
            Some(_) => r is Close && final(players).view() == old(players).view(),
        },
{
    match message.data {
        None => LoginStep::Wait,
        Some(ClientData::LoginRequest(req)) => {
            let ghost before = players.view();
            if !players.register_player(req.player_id.clone()) {
                return LoginStep::Refuse(
                    send_login_error(ErrorCode::AlreadyLoggedIn, "Already logged in"),
                );
            }
            if !is_authorized(&req.auth_config, &config.auth) {
                players.unregister_player(&req.player_id);
                assert(players.view() =~= before);
                return LoginStep::Refuse(send_login_error(ErrorCode::Unauthorized, "Unauthorized"));
            }
            LoginStep::Accept(req.player_id, send_login_ok())
        },
        Some(_) => LoginStep::Close,
    }
}

/// A logged-in session: its player and the rooms it has been admitted to,
/// each with the handle on the room's inbound queue.
pub struct Session<S, H> {
    pub player: Player<S>,
    pub joined_rooms: RoomChannels<H>,
}

impl<S: Clone, H: Clone> Session<S, H> {
    pub open spec fn wf(&self) -> bool {
        self.joined_rooms.wf()
    }

    pub fn new(player: Player<S>) -> (r: Self)
        ensures
            r.wf(),
            r.player == player,
            forall|k: Seq<char>| !r.joined_rooms.contains(k),
    {
        Session { player, joined_rooms: RoomChannels::new() }
    }

    /// The event that tells a room this session's player leaves it.
    pub fn leave_event(&self) -> (r: InputEvent<S>)
        ensures
            r == InputEvent::<S>::Leave(InputLeaveEvent { player_id: self.player.id }),
    {
        InputEvent::Leave(InputLeaveEvent { player_id: self.player.id.clone() })
    }

    /// What the session sends when it ends: a leave for each room it has
    /// been admitted to, through the handle it holds on that room.
    pub fn leave_all(&self) -> (r: Vec<(H, InputEvent<S>)>)
        requires
            self.wf(),
        ensures
            r@.len() == self.joined_rooms.entries@.len(),
            forall|i: int|
                0 <= i < r@.len() ==> r@[i].1 == InputEvent::<S>::Leave(
                    InputLeaveEvent { player_id: self.player.id },
                ),
            forall|i: int|
                0 <= i < r@.len() ==> vstd::pervasive::cloned(
                    self.joined_rooms.entries@[i].handle,
                    #[trigger] r@[i].0,
                ),
    {
        let mut r: Vec<(H, InputEvent<S>)> = Vec::new();
        let mut i: usize = 0;
        while i < self.joined_rooms.entries.len()
            invariant
                i <= self.joined_rooms.entries@.len(),
                r@.len() == i,
                forall|j: int|
                    0 <= j < i ==> r@[j].1 == InputEvent::<S>::Leave(
                        InputLeaveEvent { player_id: self.player.id },
                    ),
                forall|j: int|
                    0 <= j < i ==> vstd::pervasive::cloned(
                        self.joined_rooms.entries@[j].handle,
                        #[trigger] r@[j].0,
                    ),
            decreases self.joined_rooms.entries@.len() - i,
        {
            r.push((self.joined_rooms.entries[i].handle.clone(), self.leave_event()));
            i += 1;
        }
        r
    }

    /// Handles one message of the client. `rooms` is the registry of live
    /// rooms.
    pub fn on_client_message(&self, message: ClientMessage, rooms: &RoomChannels<H>) -> (r:
        ClientAction<S, H>)
        requires
            rooms.wf(),
        ensures
            match message.data {
                None => r is Nothing,
                Some(ClientData::LoginRequest(_)) => r matches ClientAction::Reply(m)
                    && is_login_response(m, ErrorCode::AlreadyLoggedIn, "Already logged in"@),
                Some(ClientData::JoinRequest(req)) => r matches ClientAction::JoinRoom {
                    room_id,
                    room_config,
                    event,
                } && room_id == req.room_id && room_config == requested_config(req.room_config)
                    && (event matches InputEvent::Join(j) && is_copy_of(self.player, j.player)
                    && j.room_config == room_config),
                Some(ClientData::LeaveRequest(req)) => if rooms.contains(req.room_id@) {
                    r matches ClientAction::SendToRoom { room, event } && vstd::pervasive::cloned(
                        rooms.handle_of(req.room_id@),
                        room,
                    ) && event == InputEvent::<S>::Leave(
                        InputLeaveEvent { player_id: self.player.id },
                    )
                } else {
                    r matches ClientAction::Reply(m) && is_leave_response(
                        m,
                        req.room_id,
                        ErrorCode::FailedPrecondition,
                        "You have not joined the room or it does not exist"@,
                    )
                },
                Some(ClientData::SendMessage(req)) => if rooms.contains(req.room_id@) {
                    r matches ClientAction::SendToRoom { room, event } && vstd::pervasive::cloned(
                        rooms.handle_of(req.room_id@),
                        room,
                    ) && event == InputEvent::<S>::Message(
                        InputMessageEvent {
                            sender_player_id: self.player.id,
                            target_ids: req.target_ids,
                            body: req.body,
                        },
                    )
                } else {
                    r is Nothing
                },
            },
    {
        match message.data {
            None => ClientAction::Nothing,
            Some(ClientData::LoginRequest(_)) => ClientAction::Reply(
                send_login_error(ErrorCode::AlreadyLoggedIn, "Already logged in"),
            ),
            Some(ClientData::JoinRequest(req)) => {
                let room_config = match req.room_config {
                    Some(c) => c,
                    None => RoomConfig::default(),
                };
                let event = InputEvent::Join(
                    InputJoinEvent { player: self.player.copy_handle(), room_config },
                );
                ClientAction::JoinRoom { room_id: req.room_id, room_config, event }
            },
            Some(ClientData::LeaveRequest(req)) => match rooms.get_room_channel(&req.room_id) {
                Some(room) => ClientAction::SendToRoom {
                    room: room.clone(),
                    event: self.leave_event(),
                },
                None => ClientAction::Reply(
                    ServerMessage {
                        data: Some(
                            ServerData::LeaveResponse(
                                LeaveResponse {
                                    room_id: req.room_id,
                                    error: error(
                                        ErrorCode::FailedPrecondition,
                                        "You have not joined the room or it does not exist",
                                    ),
                                },
                            ),
                        ),
                    },
                ),
            },
            Some(ClientData::SendMessage(req)) => match rooms.get_room_channel(&req.room_id) {
                Some(room) => ClientAction::SendToRoom {
                    room: room.clone(),
                    event: InputEvent::Message(
                        InputMessageEvent {
                            sender_player_id: self.player.id.clone(),
                            target_ids: req.target_ids,
                            body: req.body,
                        },
                    ),
                },
                None => ClientAction::Nothing,
            },
        }
    }

    /// Turns one event of a room into the message for the client. The
    /// session records a room only on its own player's successful join, and
    /// only while the room is still in `rooms`; it forgets the room on its
    /// own player's leave.
    pub fn on_output_event(&mut self, event: OutputEvent, rooms: &RoomChannels<H>) -> (r:
        ServerMessage)
        requires
            old(self).wf(),
            rooms.wf(),
        ensures
            final(self).wf(),
            final(self).player == old(self).player,
            match event {
                OutputEvent::Join(Ok(ev)) => {
                    &&& join_ok_reply(old(self).player.id@, ev, rooms.contains(ev.room_id@), r)
                    &&& if ev.player_id@ == old(self).player.id@ && rooms.contains(ev.room_id@) {
                        &&& forall|k: Seq<char>|
                            final(self).joined_rooms.contains(k) <==> (old(
                                self,
                            ).joined_rooms.contains(k) || k == ev.room_id@)
                        &&& vstd::pervasive::cloned(
                            rooms.handle_of(ev.room_id@),
                            final(self).joined_rooms.handle_of(ev.room_id@),
                        )
                        &&& forall|k: Seq<char>|
                            k != ev.room_id@ && old(self).joined_rooms.contains(k) ==> final(self).joined_rooms.handle_of(k) == old(self).joined_rooms.handle_of(k)
                    } else {
                        *final(self) == *old(self)
                    }
                },
                OutputEvent::Join(Err(e)) => {
                    &&& is_join_refusal(
                        r,
                        refused_room(e),
                        join_error_code(e),
                        join_error_text(e),
                    )
                    &&& *final(self) == *old(self)
                },
                OutputEvent::Leave(ev) => if ev.player_id@ == old(self).player.id@ {
                    &&& is_leave_response(r, ev.room_id, ErrorCode::Success, Seq::empty())
                    &&& forall|k: Seq<char>|
                        final(self).joined_rooms.contains(k) <==> (old(self).joined_rooms.contains(k)
                            && k != ev.room_id@)
                    &&& forall|k: Seq<char>|
                        k != ev.room_id@ && old(self).joined_rooms.contains(k) ==> final(self).joined_rooms.handle_of(k) == old(self).joined_rooms.handle_of(k)
                } else {
                    &&& r == ServerMessage {
                        data: Some(
                            ServerData::LeaveNotification(
                                LeaveNotification { room_id: ev.room_id, player_id: ev.player_id },
                            ),
                        ),
                    }
                    &&& *final(self) == *old(self)
                },
                OutputEvent::Message(ev) => {
                    &&& r == ServerMessage {
                        data: Some(
                            ServerData::MessageNotification(
                                MessageNotification {
                                    room_id: ev.room_id,
                                    sender_id: ev.sender_player_id,
                                    body: ev.body,
                                },
                            ),
                        ),
                    }
                    &&& *final(self) == *old(self)
                },
            },
    {
        match event {
            OutputEvent::Join(Ok(ev)) => {
                if ev.player_id == self.player.id {
                    match rooms.get_room_channel(&ev.room_id) {
                        Some(room) => {
                            self.joined_rooms.insert(ev.room_id.clone(), room.clone());
                            ServerMessage {
                                data: Some(
                                    ServerData::JoinResponse(
                                        JoinResponse {
                                            room_id: ev.room_id,
                                            current_players: ev.room_player_ids,
                                            room_config: Some(ev.room_config),
                                            error: no_error(),
                                        },
                                    ),
                                ),
                            }
                        },
                        None => join_refusal(
                            ev.room_id,
                            ErrorCode::RoomNotFound,
                            "Room was deleted during Join processing",
                        ),
                    }
                } else {
                    ServerMessage {
                        data: Some(
                            ServerData::JoinNotification(
                                JoinNotification { room_id: ev.room_id, player_id: ev.player_id },
                            ),
                        ),
                    }
                }
            },
            OutputEvent::Join(Err(e)) => match e {
                RoomError::AlreadyJoinedRoom(room_id, _) => join_refusal(
                    room_id,
                    ErrorCode::AlreadyJoinedTheRoom,
                    "Already joined the room",
                ),
                RoomError::RoomConfigDoesNotMatch(room_id, _) => join_refusal(
                    room_id,
                    ErrorCode::RoomConfigDoesNotMatch,
                    "Room config does not match",
                ),
                RoomError::RoomIsFull(room_id, _) => join_refusal(
                    room_id,
                    ErrorCode::RoomIsFull,
                    "Room is full",
                ),
            },
            OutputEvent::Leave(ev) => {
                if ev.player_id == self.player.id {
                    self.joined_rooms.remove_room_from_channels(&ev.room_id);
                    ServerMessage {
                        data: Some(
                            ServerData::LeaveResponse(
                                LeaveResponse { room_id: ev.room_id, error: no_error() },
                            ),
                        ),
                    }
                } else {
                    ServerMessage {
                        data: Some(
                            ServerData::LeaveNotification(
                                LeaveNotification { room_id: ev.room_id, player_id: ev.player_id },
                            ),
                        ),
                    }
                }
            },
            OutputEvent::Message(ev) => ServerMessage {
                data: Some(
                    ServerData::MessageNotification(
                        MessageNotification {
                            room_id: ev.room_id,
                            sender_id: ev.sender_player_id,
                            body: ev.body,
                        },
                    ),
                ),
            },
        }
    }
}

} // verus!
