//! Status tag of a REST response body, rendered as `"Success"`/`"Error"`.

use vstd::prelude::*;

verus! {

#[derive(Debug, Clone, Copy, PartialEq, Eq, Structural)]
pub enum ResponseStatus {
    Success,
    Error,
}

impl ResponseStatus {
    /// The exact text this status renders to.
    pub open spec fn spec_str(&self) -> Seq<char> {
        match self {
            ResponseStatus::Success => "Success"@,
            ResponseStatus::Error => "Error"@,
        }
    }

    /// Renders the status as its text.
    pub fn stringify(&self) -> (r: String)
        ensures
            r@ == self.spec_str(),
    {
        match self {
            ResponseStatus::Success => "Success".to_string(),
            ResponseStatus::Error => "Error".to_string(),
        }
    }

    /// Reads a status back from its text; only the two rendered forms are
    /// accepted.
    pub fn from_string(input_string: String) -> (r: Self)
        requires
            input_string@ == "Success"@ || input_string@ == "Error"@,
        ensures
            r.spec_str() == input_string@,
    {
        if input_string == "Success".to_string() {
            ResponseStatus::Success
        } else {
            ResponseStatus::Error
        }
    }
}

} // verus!
