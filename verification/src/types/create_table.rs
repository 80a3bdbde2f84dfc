//! The create-table operation.

use vstd::prelude::*;
use crate::protocol::{encode_create_table_request, pb_create_table_request};
use super::table_meta::TableMeta;
use super::table_options::TableOptions;
use super::action::Action;
use super::common::SettableValue;
use super::{Request, BaseResponse};

verus! {

/// The create-table request: the table's metadata and its options.
#[derive(Debug, Clone)]
pub struct CreateTableRequest {
    pub table_meta: TableMeta,
    pub options: TableOptions,
}

/// The create-table response carries only the transport annotation.
#[derive(Debug)]
pub struct CreateTableResponse {
    pub base: BaseResponse,
}

impl CreateTableRequest {
    /// A request for the given metadata with the creation defaults.
    pub fn new(table_meta: TableMeta) -> (r: Self)
        ensures
            r.table_meta == table_meta,
            r.options.capacity_unit.read == SettableValue::<i32>::Default,
            r.options.capacity_unit.write == SettableValue::<i32>::Default,
            r.options.time_to_live_secs == SettableValue::<i32>::Default,
            r.options.max_versions == SettableValue::<i32>::Default,
            r.options.deviated_duration_secs == SettableValue::<i64>::Default,
    {
        CreateTableRequest { table_meta, options: TableOptions::default_for_create() }
    }

    /// The request's protobuf body.
    pub fn to_body(&self) -> (r: Vec<u8>)
        ensures
            r@ == pb_create_table_request(self.table_meta, self.options),
    {
        encode_create_table_request(&self.table_meta, &self.options)
    }
}

impl Request for CreateTableRequest {
    fn action(&self) -> (r: Action)
        ensures
            r == Action::CreateTable,
    {
        Action::CreateTable
    }

    fn path(&self) -> (r: String)
        ensures
            r@ == super::action::spec_action_path(Action::CreateTable),
    {
        Action::CreateTable.path()
    }
}

} // verus!
