//! What is wrong with an answer of a backend.

use super::text::{decimal, decimal_number};
use vstd::prelude::*;
use vstd::string::StringExecFns;

verus! {

/// An answer of the backend that lacks what an entry must hold. It is a
/// failure of the backend like any other: the call that got the answer fails.
#[derive(Debug, PartialEq, Eq)]
pub struct ReportError {
    /// The place of the first entry that lacks something, counted from zero.
    pub index: usize,
}

impl ReportError {
    /// The description of the failure.
    pub open spec fn text(&self) -> Seq<char> {
        "The backend's answer is malformed: entry "@ + decimal(self.index as nat)
            + " is incomplete"@
    }

    /// The description of the failure.
    pub fn message(&self) -> (text: String)
        ensures
            text@ == self.text(),
    {
        String::from_str("The backend's answer is malformed: entry ").concat(
            decimal_number(self.index as u64).as_str(),
        ).concat(" is incomplete")
    }
}

} // verus!
