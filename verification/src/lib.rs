//! A match-session concurrency engine for a small multiplayer game server.
//!
//! Each live match is owned by a session actor that serializes all mutation
//! of its player set through a FIFO mailbox; a process-wide registry maps
//! match identifiers to actor mailboxes and governs session creation,
//! teardown and the process-idle shutdown decision. Around that core sit the
//! data models and decision rules for the matchmaking function, the game
//! server allocator and the player-facing frontend.

pub mod channel;
pub mod director;
pub mod entities;
pub mod errors;
pub mod frontend;
pub mod handler;
pub mod lifecycle;
pub mod mmf;
pub mod registry;
pub mod worker;
