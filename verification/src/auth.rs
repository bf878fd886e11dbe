//! The error a guarded endpoint answers when no valid token accompanies a
//! request. Token issuance and validation themselves live outside this
//! library.

use vstd::prelude::*;

verus! {

/// An authorization failure, carrying the text shown to the caller.
#[derive(Debug)]
pub struct UnauthorizedError {
    message: String,
}

impl View for UnauthorizedError {
    type V = Seq<char>;

    closed spec fn view(&self) -> Seq<char> {
        self.message@
    }
}

impl UnauthorizedError {
    pub fn new(message: String) -> (r: UnauthorizedError)
        ensures
            r@ == message@,
    {
        UnauthorizedError { message }
    }

    /// The text shown to the caller.
    pub fn message(&self) -> (r: &String)
        ensures
            r@ == self@,
    {
        &self.message
    }
}

} // verus!
