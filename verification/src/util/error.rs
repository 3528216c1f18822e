//! The error that the bot reports to its user.

use vstd::prelude::*;

verus! {

/// An error raised while handling an update, carrying a message for the user.
#[derive(Debug, PartialEq, Eq)]
pub struct BotError {
    message: String,
}

impl View for BotError {
    type V = Seq<char>;

    /// The message the error carries.
    closed spec fn view(&self) -> Seq<char> {
        self.message@
    }
}

impl BotError {
    /// Builds an error with the given message.
    pub fn new(message: &str) -> (err: BotError)
        ensures
            err@ == message@,
    {
        BotError { message: message.to_owned() }
    }

    /// The message, as the user will read it.
    pub fn message(&self) -> (text: &str)
        ensures
            text@ == self@,
    {
        self.message.as_str()
    }
}

} // verus!
