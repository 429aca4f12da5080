//! Core of a realtime multiplayer session server: rooms, registries and the
//! per-connection session logic, written as verified state transitions. The
//! runtime that moves events between sessions and rooms performs the
//! deliveries that these transitions decide.

pub mod actor;
pub mod config;
pub mod entity;
pub mod message;
