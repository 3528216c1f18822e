//! The rows of the relational store, one module per table.

pub mod conversation_states;
pub mod conversation_transitions;
pub mod conversations;
