//! The error a server function answers with: a message for the operator.

use vstd::prelude::*;

verus! {

/// The error of a failed server function, carrying its message.
#[derive(Debug, Clone)]
pub struct ServerFnError(pub String);

impl View for ServerFnError {
    type V = Seq<char>;

    open spec fn view(&self) -> Seq<char> {
        self.0@
    }
}

impl ServerFnError {
    /// An error with the message `message`.
    pub fn new(message: String) -> (e: ServerFnError)
        ensures
            e@ == message@,
    {
        ServerFnError(message)
    }

    /// The message, as the error displays it.
    pub fn to_string(&self) -> (s: String)
        ensures
            s@ == self@,
    {
        self.0.clone()
    }
}

} // verus!
