//! The table of states: the steps of the conversation templates.

use vstd::prelude::*;

verus! {

/// A state of a template. `content` is the prompt shown to a user who is at
/// this state; `start_for` names the template that starts here, if one does.
#[derive(Debug, PartialEq, Eq)]
pub struct Model {
    pub state_id: u128,
    pub parent: u128,
    pub content: String,
    pub start_for: Option<u128>,
}

/// A state row as plain values.
pub struct StateRow {
    pub state_id: u128,
    pub parent: u128,
    pub content: Seq<char>,
    pub start_for: Option<u128>,
}

impl View for Model {
    type V = StateRow;

    open spec fn view(&self) -> StateRow {
        StateRow {
            state_id: self.state_id,
            parent: self.parent,
            content: self.content@,
            start_for: self.start_for,
        }
    }
}

impl Clone for Model {
    fn clone(&self) -> (copy: Model)
        ensures
            copy@ == self@,
    {
        Model {
            state_id: self.state_id,
            parent: self.parent,
            content: self.content.clone(),
            start_for: self.start_for,
        }
    }
}

/// The rows of a table of states as plain values, in the order of insertion.
pub open spec fn rows(table: Seq<Model>) -> Seq<StateRow> {
    Seq::new(table.len(), |i: int| table[i]@)
}

} // verus!
