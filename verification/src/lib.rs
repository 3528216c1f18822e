//! Verified core of a chat-bot backend: a cache-aside query engine with a
//! staging list, and a persisted finite-state conversation engine.

pub mod modules;
pub mod persist;
pub mod tg;
pub mod util;
