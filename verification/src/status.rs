//! Status tag of a REST response body, rendered as `"Success"`/`"Error"`.
//! This is the variant whose reader takes a borrowed string.

use vstd::prelude::*;

verus! {

#[derive(Debug, Clone, Copy, PartialEq, Eq, Structural)]
pub enum Status {
    Success,
    Error,
}

impl Status {
    /// The exact text this status renders to.
    pub open spec fn spec_str(&self) -> Seq<char> {
        match self {
            Status::Success => "Success"@,
            Status::Error => "Error"@,
        }
    }

    /// Renders the status as its text.
    pub fn stringify(&self) -> (r: String)
        ensures
            r@ == self.spec_str(),
    {
        match self {
            Status::Success => "Success".to_string(),
            Status::Error => "Error".to_string(),
        }
    }

    /// Reads a status back from its text; only the two rendered forms are
    /// accepted.
    pub fn from_string(input_string: &str) -> (r: Self)
        requires
            input_string@ == "Success"@ || input_string@ == "Error"@,
        ensures
            r.spec_str() == input_string@,
    {
        if input_string.to_string() == "Success".to_string() {
            Status::Success
        } else {
            Status::Error
        }
    }
}

} // verus!
