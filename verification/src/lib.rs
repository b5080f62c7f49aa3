//! A bridge between a chat platform and an issue tracker.
//!
//! A marked reaction on a chat message opens a tracker issue and a companion
//! thread; replies in the thread become tracker comments, and tracker comments
//! are mirrored back into the thread. This crate holds the decisions of that
//! bridge: routing and permissions, the thread-to-issue correlation table, the
//! handling of webhook payloads and the step-by-step handling of each event.
//! The network, the database and the process around it belong to the caller.

pub mod config;
pub mod engine;
pub mod event;
pub mod state;
pub mod text;
pub mod webserver;
