//! The error that the utilities report: a message for the user.

use vstd::prelude::*;
use vstd::string::StringExecFns;

verus! {

/// A failure described by the text that is shown to the user.
#[derive(Debug)]
pub struct Failure {
    message: String,
}

impl View for Failure {
    type V = Seq<char>;

    closed spec fn view(&self) -> Seq<char> {
        self.message@
    }
}

impl Failure {
    /// A failure with the given message.
    pub fn new(message: String) -> (failure: Failure)
        ensures
            failure@ == message@,
    {
        Failure { message }
    }

    /// A failure whose message is a copy of `text`.
    pub fn from_text(text: &str) -> (failure: Failure)
        ensures
            failure@ == text@,
    {
        Failure { message: text.to_owned() }
    }

    /// A failure whose message is `text` between `before` and `after`.
    pub fn about(before: &str, text: &str, after: &str) -> (failure: Failure)
        ensures
            failure@ == before@ + text@ + after@,
    {
        let mut message = String::from_str(before);
        message.append(text);
        message.append(after);
        Failure { message }
    }

    /// The message.
    pub fn to_string(&self) -> (message: String)
        ensures
            message@ == self@,
    {
        self.message.clone()
    }
}

} // verus!
