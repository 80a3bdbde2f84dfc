//! The put-row operation: writes one row.

use vstd::prelude::*;
use crate::error::{Error, ErrorCode};
use crate::protocol::{encode_put_row_request, pb_put_row_request};
use crate::plainbuffer::serde::encode_row;
use crate::plainbuffer::spec::{wf_row, enc_pbuf_row};
use super::common::Name;
use super::row::Row;
use super::condition::{Condition, RowExistenceExpectation};
use super::in_return::InReturn;
use super::action::Action;
use super::{Request, BaseResponse};

verus! {

/// The put-row request: the table, the row to write, the existence
/// condition, and what to send back.
#[derive(Debug, Clone)]
pub struct PutRowRequest {
    pub table_name: Name,
    pub row: Row,
    pub condition: Condition,
    pub in_return: InReturn,
}

/// The put-row response carries only the transport annotation.
#[derive(Debug)]
pub struct PutRowResponse {
    pub base: BaseResponse,
}

impl PutRowRequest {
    /// A plain write: no existence condition, nothing sent back.
    /// Fails exactly on an empty table name.
    pub fn new(table_name: String, row: Row) -> (r: Result<Self, Error>)
        ensures
            table_name@.len() > 0 ==> (r matches Ok(q) && q.table_name@ == table_name@ && q.row@
                == row@ && q.condition.row_exist == RowExistenceExpectation::Ignore && q.in_return
                == InReturn::Nothing),
            table_name@.len() == 0 ==> (r matches Err(e) && e.code == ErrorCode::ClientUnknown),
    {
        let name = match Name::new(table_name) {
            Ok(n) => n,
            Err(e) => {
                return Err(e);
            },
        };
        Ok(
            PutRowRequest {
                table_name: name,
                row,
                condition: Condition { row_exist: RowExistenceExpectation::Ignore },
                in_return: InReturn::Nothing,
            },
        )
    }

    /// The request's protobuf body; the row travels inside it in the
    /// binary row codec.
    pub fn to_body(&self) -> (r: Vec<u8>)
        requires
            wf_row(self.row@),
        ensures
            r@ == pb_put_row_request(
                self.table_name@,
                enc_pbuf_row(self.row@),
                self.condition,
                self.in_return,
            ),
    {
        let row_bytes = encode_row(&self.row);
        encode_put_row_request(&self.table_name, row_bytes.as_slice(), &self.condition,
            self.in_return)
    }
}

impl Request for PutRowRequest {
    fn action(&self) -> (r: Action)
        ensures
            r == Action::PutRow,
    {
        Action::PutRow
    }

    fn path(&self) -> (r: String)
        ensures
            r@ == super::action::spec_action_path(Action::PutRow),
    {
        Action::PutRow.path()
    }
}

} // verus!
