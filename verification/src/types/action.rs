//! The operations the client can perform, and the URL path each one is
//! posted to.

use vstd::prelude::*;
use vstd::string::StringExecFns;

verus! {

/// One of the supported service operations.
#[derive(Debug, Clone, Copy, PartialEq, Eq, Structural)]
pub enum Action {
    CreateTable,
    DeleteTable,
    ListTable,
    PutRow,
    GetRange,
}

/// The URL path that an action is posted to.
pub open spec fn spec_action_path(a: Action) -> Seq<char> {
    match a {
        Action::CreateTable => "/CreateTable"@,
        Action::DeleteTable => "/DeleteTable"@,
        Action::ListTable => "/ListTable"@,
        Action::PutRow => "/PutRow"@,
        Action::GetRange => "/GetRange"@,
    }
}

impl Action {
    /// The URL path that this action is posted to.
    pub fn path(&self) -> (r: String)
        ensures
            r@ == spec_action_path(*self),
    {
        match self {
            Action::CreateTable => String::from_str("/CreateTable"),
            Action::DeleteTable => String::from_str("/DeleteTable"),
            Action::ListTable => String::from_str("/ListTable"),
            Action::PutRow => String::from_str("/PutRow"),
            Action::GetRange => String::from_str("/GetRange"),
        }
    }
}

} // verus!
