//! The list-table operation: no request payload, a response carrying
//! the table names.

use vstd::prelude::*;
use crate::error::Error;
use crate::protocol::{encode_list_table_request, decode_pb_table_names, dec_pb_table_names};
use crate::error::ErrorCode;
use super::common::Name;
use super::action::Action;
use super::{Request, BaseResponse};

verus! {

/// The list-table request: it has no parameters.
#[derive(Debug, Clone)]
pub struct ListTableRequest {}

/// The list-table response: the names of every table in the instance.
#[derive(Debug)]
pub struct ListTableResponse {
    pub base: BaseResponse,
    pub tables: Vec<Name>,
}

impl ListTableRequest {
    /// The request's protobuf body: empty.
    pub fn to_body(&self) -> (r: Vec<u8>)
        ensures
            r@ == Seq::<u8>::empty(),
    {
        encode_list_table_request()
    }
}

impl Request for ListTableRequest {
    fn action(&self) -> (r: Action)
        ensures
            r == Action::ListTable,
    {
        Action::ListTable
    }

    fn path(&self) -> (r: String)
        ensures
            r@ == super::action::spec_action_path(Action::ListTable),
    {
        Action::ListTable.path()
    }
}

/// Decodes a list-table response body into the table names, in the
/// order the service sent them.
pub fn parse_list_table_body(body: &[u8]) -> (r: Result<ListTableResponse, Error>)
    ensures
        r matches Ok(resp) ==> dec_pb_table_names(body@, Seq::<Seq<char>>::empty()) == Some(
            resp.tables.deep_view(),
        ) && resp.base.server_timestamp is None && resp.base.req_id is None,
        r is Err ==> dec_pb_table_names(body@, Seq::<Seq<char>>::empty()) is None,
        r matches Err(e) ==> e.code == ErrorCode::CorruptedResponse,
{
    let names = match decode_pb_table_names(body) {
        Ok(x) => x,
        Err(e) => {
            return Err(e);
        },
    };
    let ghost nm = names.deep_view();
    let mut tables: Vec<Name> = Vec::new();
    let mut rest = names;
    while rest.len() > 0
        invariant
            tables@.len() + rest@.len() == nm.len(),
            tables.deep_view() =~= nm.take(tables@.len() as int),
            rest.deep_view() =~= nm.skip(tables@.len() as int),
        decreases rest@.len(),
    {
        let ghost k = tables@.len() as int;
        let ghost rt = rest.deep_view();
        let s = rest.remove(0);
        proof {
            assert(s@ == rt[0]);
            assert(rest.deep_view() =~= rt.drop_first());
            assert(rt.drop_first() =~= nm.skip(k + 1));
        }
        tables.push(Name::from_string(s));
        proof {
            assert(tables.deep_view() =~= nm.take(k + 1));
        }
    }
    proof {
        assert(nm.take(nm.len() as int) =~= nm);
    }
    Ok(ListTableResponse { base: BaseResponse::new(), tables })
}

} // verus!
