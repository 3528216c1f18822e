//! What the bot does with a chat.

pub mod dialog;
pub mod laws;
