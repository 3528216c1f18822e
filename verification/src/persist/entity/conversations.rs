//! The table of conversation templates.

use vstd::prelude::*;

verus! {

/// A conversation template: a reusable interaction of several steps.
#[derive(Debug, PartialEq, Eq)]
pub struct Model {
    pub conversation_id: u128,
    pub triggerphrase: String,
    pub chat_id: Option<i64>,
}

/// A template row as plain values.
pub struct ConversationRow {
    pub conversation_id: u128,
    pub triggerphrase: Seq<char>,
    pub chat_id: Option<i64>,
}

impl View for Model {
    type V = ConversationRow;

    open spec fn view(&self) -> ConversationRow {
        ConversationRow {
            conversation_id: self.conversation_id,
            triggerphrase: self.triggerphrase@,
            chat_id: self.chat_id,
        }
    }
}

impl Clone for Model {
    fn clone(&self) -> (copy: Model)
        ensures
            copy@ == self@,
    {
        Model {
            conversation_id: self.conversation_id,
            triggerphrase: self.triggerphrase.clone(),
            chat_id: self.chat_id,
        }
    }
}

/// The rows of a table of templates as plain values, in the order of insertion.
pub open spec fn rows(table: Seq<Model>) -> Seq<ConversationRow> {
    Seq::new(table.len(), |i: int| table[i]@)
}

} // verus!
