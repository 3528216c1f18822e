//! The table of stickers.

use vstd::prelude::*;

verus! {

/// A sticker that a user has uploaded, under the name the user chose.
#[derive(Debug, PartialEq, Eq)]
pub struct Model {
    pub unique_id: String,
    pub owner_id: i64,
    pub uuid: u128,
    pub chosen_name: Option<String>,
}

/// A sticker row as plain values.
pub struct StickerRow {
    pub unique_id: Seq<char>,
    pub owner_id: i64,
    pub uuid: u128,
    pub chosen_name: Option<Seq<char>>,
}

impl View for Model {
    type V = StickerRow;

    open spec fn view(&self) -> StickerRow {
        StickerRow {
            unique_id: self.unique_id@,
            owner_id: self.owner_id,
            uuid: self.uuid,
            chosen_name: match self.chosen_name {
                Some(name) => Some(name@),
                None => None,
            },
        }
    }
}

/// The rows of a table of stickers as plain values.
pub open spec fn rows(table: Seq<Model>) -> Seq<StickerRow> {
    Seq::new(table.len(), |i: int| table[i]@)
}

} // verus!
