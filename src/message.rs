//! Messages exchanged with clients, as the session logic sees them once a
//! transport has decoded them.

use vstd::prelude::*;

use crate::entity::player::PlayerId;
use crate::entity::room::{RoomConfig, RoomId};

verus! {

#[derive(Clone, Copy, Debug, PartialEq, Eq, Structural)]
pub enum ErrorCode {
    Success,
    Unauthorized,
    AlreadyLoggedIn,
    AlreadyJoinedTheRoom,
    RoomConfigDoesNotMatch,
    RoomNotFound,
    FailedPrecondition,
    RoomIsFull,
}

/// Outcome carried by every response; `ErrorCode::Success` when the request succeeded.
#[derive(Clone, Debug, PartialEq, Eq)]
pub struct Error {
    pub code: ErrorCode,
    pub message: String,
}

#[derive(Clone, Debug, PartialEq, Eq)]
pub struct AuthConfigBearer {
    pub token: String,
}

#[derive(Clone, Debug, PartialEq, Eq)]
pub enum AuthConfig {
    Bearer(AuthConfigBearer),
}

#[derive(Clone, Debug, PartialEq, Eq)]
pub struct LoginRequest {
    pub player_id: PlayerId,
    pub auth_config: Option<AuthConfig>,
}

#[derive(Clone, Debug, PartialEq, Eq)]
pub struct JoinRequest {
    pub room_id: RoomId,
    pub room_config: Option<RoomConfig>,
}

#[derive(Clone, Debug, PartialEq, Eq)]
pub struct LeaveRequest {
    pub room_id: RoomId,
}

/// A message for the members of a room: all of them where `target_ids` is
/// empty, else those named.
#[derive(Clone, Debug, PartialEq, Eq)]
pub struct SendMessage {
    pub room_id: RoomId,
    pub target_ids: Vec<PlayerId>,
    pub body: Vec<u8>,
}

#[derive(Clone, Debug, PartialEq, Eq)]
pub enum ClientData {
    LoginRequest(LoginRequest),
    JoinRequest(JoinRequest),
    LeaveRequest(LeaveRequest),
    SendMessage(SendMessage),
}

#[derive(Clone, Debug, PartialEq, Eq)]
pub struct ClientMessage {
    pub data: Option<ClientData>,
}

#[derive(Clone, Debug, PartialEq, Eq)]
pub struct LoginResponse {
    pub error: Option<Error>,
}

#[derive(Clone, Debug, PartialEq, Eq)]
pub struct JoinResponse {
    pub room_id: RoomId,
    pub current_players: Vec<PlayerId>,
    pub room_config: Option<RoomConfig>,
    pub error: Option<Error>,
}

#[derive(Clone, Debug, PartialEq, Eq)]
pub struct LeaveResponse {
    pub room_id: RoomId,
    pub error: Option<Error>,
}

#[derive(Clone, Debug, PartialEq, Eq)]
pub struct JoinNotification {
    pub room_id: RoomId,
    pub player_id: PlayerId,
}

#[derive(Clone, Debug, PartialEq, Eq)]
pub struct LeaveNotification {
    pub room_id: RoomId,
    pub player_id: PlayerId,
}

#[derive(Clone, Debug, PartialEq, Eq)]
pub struct MessageNotification {
    pub room_id: RoomId,
    pub sender_id: PlayerId,
    pub body: Vec<u8>,
}

#[derive(Clone, Debug, PartialEq, Eq)]
pub enum ServerData {
    LoginResponse(LoginResponse),
    JoinResponse(JoinResponse),
    LeaveResponse(LeaveResponse),
    JoinNotification(JoinNotification),
    LeaveNotification(LeaveNotification),
    MessageNotification(MessageNotification),
}

#[derive(Clone, Debug, PartialEq, Eq)]
pub struct ServerMessage {
    pub data: Option<ServerData>,
}

/// `e` is present, with `code` and the text `text`.
pub open spec fn error_is(e: Option<Error>, code: ErrorCode, text: Seq<char>) -> bool {
    &&& e is Some
    &&& e.unwrap().code == code
    &&& e.unwrap().message@ == text
}

/// An error value with `code` and the text `text`.
pub fn error(code: ErrorCode, text: &str) -> (r: Option<Error>)
    ensures
        error_is(r, code, text@),
{
    Some(Error { code, message: text.to_owned() })
}

/// The success value: code `Success` and an empty text.
pub fn no_error() -> (r: Option<Error>)
    ensures
        error_is(r, ErrorCode::Success, Seq::empty()),
{
    Some(Error { code: ErrorCode::Success, message: String::new() })
}

} // verus!
