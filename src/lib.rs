//! A deterministic two-player Pong simulation driven by actions and
//! reporting what happened as a sequence of events.

pub mod game;
pub mod laws;
