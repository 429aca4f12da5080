//! The session and room state machines, the events between them and the
//! process-wide registries.

pub mod event;
pub mod player;
pub mod registry;
pub mod room;
