//! What a write asks the service to send back.

use vstd::prelude::*;

verus! {

/// What the response to a write carries back: nothing, or the row key.
#[derive(Debug, Copy, Clone, Eq, PartialEq, Structural)]
pub enum InReturn {
    Nothing,
    RowKey,
}

/// The wire number of each return choice.
pub open spec fn spec_in_return_number(x: InReturn) -> u64 {
    match x {
        InReturn::Nothing => 0,
        InReturn::RowKey => 1,
    }
}

impl InReturn {
    /// The wire number of this return choice.
    pub fn as_number(self) -> (r: u64)
        ensures
            r == spec_in_return_number(self),
    {
        match self {
            InReturn::Nothing => 0,
            InReturn::RowKey => 1,
        }
    }
}

} // verus!
