//! The rows of the sticker collection.

pub mod stickers;
pub mod tags;
