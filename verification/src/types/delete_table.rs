//! The delete-table operation.

use vstd::prelude::*;
use crate::protocol::{encode_delete_table_request, pb_delete_table_request};
use super::common::Name;
use super::action::Action;
use super::{Request, BaseResponse};

verus! {

/// The delete-table request: the table's name.
#[derive(Debug, Clone)]
pub struct DeleteTableRequest {
    pub name: Name,
}

/// The delete-table response carries only the transport annotation.
#[derive(Debug)]
pub struct DeleteTableResponse {
    pub base: BaseResponse,
}

impl DeleteTableRequest {
    /// The request's protobuf body.
    pub fn to_body(&self) -> (r: Vec<u8>)
        ensures
            r@ == pb_delete_table_request(self.name@),
    {
        encode_delete_table_request(&self.name)
    }
}

impl Request for DeleteTableRequest {
    fn action(&self) -> (r: Action)
        ensures
            r == Action::DeleteTable,
    {
        Action::DeleteTable
    }

    fn path(&self) -> (r: String)
        ensures
            r@ == super::action::spec_action_path(Action::DeleteTable),
    {
        Action::DeleteTable.path()
    }
}

} // verus!
