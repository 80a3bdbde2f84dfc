//! Attributes: the named, typed, optionally timestamped cells of a row.

use vstd::prelude::*;
use super::common::{Name, DateTime};
use super::rowkey::{RowKeyValue, ValueModel};

verus! {

/// The value of one attribute cell.  A `Float` carries the IEEE-754 bit
/// pattern of the number: the row codec stores and compares those eight
/// bytes bitwise, and keeping them as bits keeps every operation on them
/// exact.
#[derive(Debug, PartialEq, Eq)]
pub enum AttrValue {
    Str(String),
    Int(i64),
    Blob(Vec<u8>),
    Bool(bool),
    Float(u64),
}

/// The mathematical shadow of an attribute value.
pub enum AttrValueModel {
    Str(Seq<char>),
    Int(i64),
    Blob(Seq<u8>),
    Bool(bool),
    Float(u64),
}

impl View for AttrValue {
    type V = AttrValueModel;

    open spec fn view(&self) -> AttrValueModel {
        match self {
            AttrValue::Str(s) => AttrValueModel::Str(s@),
            AttrValue::Int(x) => AttrValueModel::Int(*x),
            AttrValue::Blob(b) => AttrValueModel::Blob(b@),
            AttrValue::Bool(b) => AttrValueModel::Bool(*b),
            AttrValue::Float(bits) => AttrValueModel::Float(*bits),
        }
    }
}

impl DeepView for AttrValue {
    type V = AttrValueModel;

    open spec fn deep_view(&self) -> AttrValueModel {
        self.view()
    }
}

impl Clone for AttrValue {
    fn clone(&self) -> (r: Self)
        ensures
            r@ == self@,
    {
        match self {
            AttrValue::Str(s) => AttrValue::Str(s.clone()),
            AttrValue::Int(x) => AttrValue::Int(*x),
            AttrValue::Blob(b) => AttrValue::Blob(crate::strings::clone_bytes(b)),
            AttrValue::Bool(b) => AttrValue::Bool(*b),
            AttrValue::Float(bits) => AttrValue::Float(*bits),
        }
    }
}

impl AttrValue {
    /// The attribute value holding the same payload as a key value.
    pub fn from_key_value(x: RowKeyValue) -> (r: AttrValue)
        ensures
            r@ == (match x@ {
                ValueModel::Int(v) => AttrValueModel::Int(v),
                ValueModel::Str(s) => AttrValueModel::Str(s),
                ValueModel::Blob(b) => AttrValueModel::Blob(b),
                _ => AttrValueModel::Bool(false),
            }),
    {
        match x {
            RowKeyValue::Int(v) => AttrValue::Int(v),
            RowKeyValue::Str(s) => AttrValue::Str(s),
            RowKeyValue::Blob(b) => AttrValue::Blob(b),
        }
    }
}

/// When an attribute's timestamp is decided: by the server on write, or
/// by the client, which attaches an explicit millisecond instant.
#[derive(Debug, PartialEq, Eq)]
pub enum AttrTimestamp {
    ServerAttach,
    ClientAttach(DateTime),
}

impl View for AttrTimestamp {
    type V = Option<i64>;

    open spec fn view(&self) -> Option<i64> {
        match self {
            AttrTimestamp::ServerAttach => None,
            AttrTimestamp::ClientAttach(t) => Some(t@),
        }
    }
}

impl Clone for AttrTimestamp {
    fn clone(&self) -> (r: Self)
        ensures
            r@ == self@,
    {
        match self {
            AttrTimestamp::ServerAttach => AttrTimestamp::ServerAttach,
            AttrTimestamp::ClientAttach(t) => AttrTimestamp::ClientAttach(*t),
        }
    }
}

impl AttrTimestamp {
    /// A present instant becomes a client-attached timestamp, an absent
    /// one leaves the choice to the server.
    pub fn from_option(x: Option<DateTime>) -> (r: AttrTimestamp)
        ensures
            r@ == (match x {
                Some(t) => Some(t@),
                None => None::<i64>,
            }),
    {
        match x {
            Some(t) => AttrTimestamp::ClientAttach(t),
            None => AttrTimestamp::ServerAttach,
        }
    }
}

/// One attribute cell: a name, a typed value, and the timestamp policy.
#[derive(Debug, PartialEq, Eq)]
pub struct Attribute {
    pub name: Name,
    pub value: AttrValue,
    pub timestamp: AttrTimestamp,
}

/// The mathematical shadow of one attribute cell.
pub struct AttrModel {
    pub name: Seq<char>,
    pub value: AttrValueModel,
    pub ts: Option<i64>,
}

impl View for Attribute {
    type V = AttrModel;

    open spec fn view(&self) -> AttrModel {
        AttrModel { name: self.name@, value: self.value@, ts: self.timestamp@ }
    }
}

impl DeepView for Attribute {
    type V = AttrModel;

    open spec fn deep_view(&self) -> AttrModel {
        self.view()
    }
}

impl Clone for Attribute {
    fn clone(&self) -> (r: Self)
        ensures
            r@ == self@,
    {
        Attribute {
            name: self.name.clone(),
            value: self.value.clone(),
            timestamp: self.timestamp.clone(),
        }
    }
}

} // verus!
