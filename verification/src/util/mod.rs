//! Small shared pieces: the error type and text formatting.

pub mod error;
pub mod ids;
pub mod search;
pub mod text;
