//! The conditions that end an operation for good.

use vstd::prelude::*;

verus! {

/// A fatal condition. None of them is retried: each ends the call during
/// which it came up.
#[derive(Clone, Copy, Debug, PartialEq, Eq, Structural)]
pub enum Failure {
    /// The configuration names no store.
    ConfigMissing,
    /// The store could not be opened or read.
    StoreUnreadable,
    /// The store's text is no ledger.
    StoreCorrupt,
    /// The store could not be written.
    StoreUnwritable,
    /// The answer to a question for a number was no number.
    InputParseFailure,
}

impl Failure {
    /// The line to put on record for this condition.
    pub open spec fn record_text(self) -> Seq<char> {
        match self {
            Failure::ConfigMissing => "Error fetching path to Database!"@,
            Failure::StoreUnreadable => "Error reading database!"@,
            Failure::StoreCorrupt => "Error parsing database to struct!"@,
            Failure::StoreUnwritable => "Error rewriting database!"@,
            Failure::InputParseFailure => "Error reading a number!"@,
        }
    }

    /// The line to put on record for this condition.
    pub fn record(&self) -> (line: &'static str)
        ensures
            line@ == self.record_text(),
    {
        match self {
            Failure::ConfigMissing => "Error fetching path to Database!",
            Failure::StoreUnreadable => "Error reading database!",
            Failure::StoreCorrupt => "Error parsing database to struct!",
            Failure::StoreUnwritable => "Error rewriting database!",
            Failure::InputParseFailure => "Error reading a number!",
        }
    }
}

} // verus!
