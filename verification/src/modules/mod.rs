//! Features built on the persistence layer.

pub mod sticker;
