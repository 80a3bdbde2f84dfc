//! Table metadata: the table's name and its primary-key schema.

use vstd::prelude::*;
use super::common::Name;

verus! {

/// The type a primary-key column is declared with.
#[derive(Debug, Clone, PartialEq, Eq)]
pub enum PkeyValueType {
    Int(PkeyIntTypeOption),
    Str,
    Blob,
}

/// What an integer key column may additionally carry: server-assigned
/// auto-increment.
#[derive(Debug, Clone, Copy, PartialEq, Eq, Structural)]
pub struct PkeyIntTypeOption {
    pub auto_increment: bool,
}

/// One declared primary-key column.
#[derive(Debug, Clone, PartialEq, Eq)]
pub struct PkeyColumnSchema {
    pub name: Name,
    pub type_: PkeyValueType,
}

/// A table's name and primary-key schema, in declaration order.
#[derive(Debug, Clone, PartialEq, Eq)]
pub struct TableMeta {
    pub name: Name,
    pub schema: Vec<PkeyColumnSchema>,
}

} // verus!
