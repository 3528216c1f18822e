//! The table of transitions: the labelled edges between states.

use vstd::prelude::*;

verus! {

/// A transition from one state to another, taken when the user's input
/// matches `triggerphrase`. Both ends may be the same state.
#[derive(Debug, PartialEq, Eq)]
pub struct Model {
    pub transition_id: u128,
    pub start_state: u128,
    pub end_state: u128,
    pub triggerphrase: String,
}

/// A transition row as plain values.
pub struct TransitionRow {
    pub transition_id: u128,
    pub start_state: u128,
    pub end_state: u128,
    pub triggerphrase: Seq<char>,
}

impl View for Model {
    type V = TransitionRow;

    open spec fn view(&self) -> TransitionRow {
        TransitionRow {
            transition_id: self.transition_id,
            start_state: self.start_state,
            end_state: self.end_state,
            triggerphrase: self.triggerphrase@,
        }
    }
}

impl Clone for Model {
    fn clone(&self) -> (copy: Model)
        ensures
            copy@ == self@,
    {
        Model {
            transition_id: self.transition_id,
            start_state: self.start_state,
            end_state: self.end_state,
            triggerphrase: self.triggerphrase.clone(),
        }
    }
}

/// The rows of a table of transitions as plain values, in the order of insertion.
pub open spec fn rows(table: Seq<Model>) -> Seq<TransitionRow> {
    Seq::new(table.len(), |i: int| table[i]@)
}

} // verus!
