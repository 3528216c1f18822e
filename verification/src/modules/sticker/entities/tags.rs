//! The table of tags, and the tag as it is staged in the cache.

use vstd::prelude::*;

verus! {

/// A tag of a sticker, as the store holds it.
#[derive(Debug, PartialEq, Eq)]
pub struct Model {
    pub id: i64,
    pub sticker_id: String,
    pub owner_id: i64,
    pub tag: String,
}

/// A tag as it waits in the cache until the sticker it belongs to is stored:
/// it has no row identifier yet.
#[derive(Debug, PartialEq, Eq)]
pub struct ModelRedis {
    pub sticker_id: String,
    pub owner_id: i64,
    pub tag: String,
}

/// A staged tag as plain values.
pub struct TagView {
    pub sticker_id: Seq<char>,
    pub owner_id: int,
    pub tag: Seq<char>,
}

impl View for ModelRedis {
    type V = TagView;

    open spec fn view(&self) -> TagView {
        TagView { sticker_id: self.sticker_id@, owner_id: self.owner_id as int, tag: self.tag@ }
    }
}

impl Clone for ModelRedis {
    fn clone(&self) -> (copy: ModelRedis)
        ensures
            copy@ == self@,
    {
        ModelRedis {
            sticker_id: self.sticker_id.clone(),
            owner_id: self.owner_id,
            tag: self.tag.clone(),
        }
    }
}

impl ModelRedis {
    /// The row that stores the staged tag under the identifier `id`.
    pub fn into_model(self, id: i64) -> (row: Model)
        ensures
            row.id == id,
            row.sticker_id@ == self@.sticker_id,
            row.owner_id == self@.owner_id,
            row.tag@ == self@.tag,
    {
        Model { id, sticker_id: self.sticker_id, owner_id: self.owner_id, tag: self.tag }
    }
}

} // verus!
