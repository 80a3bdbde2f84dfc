//! The write condition: what the operation expects of the row's
//! existence.

use vstd::prelude::*;

verus! {

/// Whether a write expects the row to exist, not to exist, or does not
/// care.
#[derive(Debug, Clone, Copy, Eq, PartialEq, Structural)]
pub enum RowExistenceExpectation {
    Ignore,
    ExpectExist,
    ExpectNotExist,
}

/// The condition attached to a write.
#[derive(Debug, Clone, Copy, Eq, PartialEq, Structural)]
pub struct Condition {
    pub row_exist: RowExistenceExpectation,
}

impl Condition {
    pub fn new(row_exist: RowExistenceExpectation) -> (r: Condition)
        ensures
            r.row_exist == row_exist,
    {
        Condition { row_exist }
    }
}

/// The wire number of each row-existence expectation.
pub open spec fn spec_row_existence_number(x: RowExistenceExpectation) -> u64 {
    match x {
        RowExistenceExpectation::Ignore => 0,
        RowExistenceExpectation::ExpectExist => 1,
        RowExistenceExpectation::ExpectNotExist => 2,
    }
}

impl RowExistenceExpectation {
    /// The wire number of this expectation.
    pub fn as_number(self) -> (r: u64)
        ensures
            r == spec_row_existence_number(self),
    {
        match self {
            RowExistenceExpectation::Ignore => 0,
            RowExistenceExpectation::ExpectExist => 1,
            RowExistenceExpectation::ExpectNotExist => 2,
        }
    }
}

} // verus!
