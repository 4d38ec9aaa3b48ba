//! Runtime core of a small multiplayer game server: fixed-interval timers,
//! an actor frame loop, and a named-event dispatch layer for chat messages.

pub mod timer;
pub mod runtime;
pub mod dispatch;
pub mod chat;
