//! A verified presence-and-messaging protocol engine for a decentralized
//! group chat: a message codec, a presence table, the per-peer presence
//! state machine, and the dispatch step that an event loop drives.

pub mod codec;
pub mod engine;
pub mod table;
pub mod text;
pub mod util;
