//! The value objects of the library: names, timestamps, row keys,
//! attributes, rows, table metadata, and the typed requests and responses
//! of the supported operations.

pub mod common;
pub mod action;
pub mod rowkey;
pub mod attr;
pub mod row;
pub mod table_meta;
pub mod table_options;
pub mod condition;
pub mod in_return;
pub mod list_table;
pub mod create_table;
pub mod delete_table;
pub mod put_row;
pub mod get_range;

pub use common::{Name, DateTime, SettableValue};
pub use action::Action;
pub use rowkey::{
    KeyOrder, RowKey, ExtendedRowKey, RowKeyColumn, ExtendedRowKeyColumn, RowKeyValue,
    ExtendedRowKeyValue, ValueModel, ColumnModel,
};
pub use attr::{AttrValue, Attribute, AttrTimestamp, AttrValueModel, AttrModel};
pub use row::{Row, RowModel};
pub use table_meta::{TableMeta, PkeyColumnSchema, PkeyValueType, PkeyIntTypeOption};
pub use table_options::{TableOptions, CapacityUnit};
pub use condition::{Condition, RowExistenceExpectation};
pub use in_return::InReturn;
pub use list_table::{ListTableRequest, ListTableResponse};
pub use create_table::{CreateTableRequest, CreateTableResponse};
pub use delete_table::{DeleteTableRequest, DeleteTableResponse};
pub use put_row::{PutRowRequest, PutRowResponse};
pub use get_range::{GetRangeRequest, GetRangeResponse, ScanStep};

use vstd::prelude::*;

verus! {

/// What every typed request knows: which action it performs and the URL
/// path that action is posted to.
pub trait Request {
    fn action(&self) -> Action;

    fn path(&self) -> String;
}

/// The part of every decoded response that the transport annotates: the
/// server-reported timestamp (milliseconds since the Unix epoch) and the
/// server-assigned request id.
#[derive(Debug, Clone)]
pub struct BaseResponse {
    pub server_timestamp: Option<i64>,
    pub req_id: Option<String>,
}

impl BaseResponse {
    /// The empty annotation, before the transport fills it in.
    pub fn new() -> (r: BaseResponse)
        ensures
            r.server_timestamp is None,
            r.req_id is None,
    {
        BaseResponse { server_timestamp: None, req_id: None }
    }
}

} // verus!
