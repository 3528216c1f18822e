//! Persistence: the key-value cache side and the relational side.

pub mod cache;
pub mod entity;
pub mod memory;
pub mod query;
pub mod redis;

use crate::util::error::BotError;
use vstd::prelude::*;

verus! {

/// A row that can be stored in a store of type `T`.
pub trait DbTable<T> {
    /// Stores the row in `pool`. `wrapper` names the entry of the write
    /// cache that wraps the row, where one does.
    fn insert(&self, pool: &mut T, wrapper: Option<String>) -> Result<(), BotError>;
}

} // verus!
