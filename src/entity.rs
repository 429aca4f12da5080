//! Plain data of the server: players and rooms.

pub mod player;
pub mod room;
