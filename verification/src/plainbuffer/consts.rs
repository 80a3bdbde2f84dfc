//! The fixed bytes of the binary row layout: the leading magic header,
//! the tag bytes that introduce each element, and the variant-type bytes
//! that name a cell value's type.

use vstd::prelude::*;
use crate::error::{Error, ErrorCode};

verus! {

/// The four-byte little-endian magic header, written once per encoded
/// row or row batch.
pub const HEADER: u32 = 0x75;

pub const TAG_NONE: u8 = 0x0;

pub const TAG_ROW_KEY: u8 = 0x1;

pub const TAG_ROW_DATA: u8 = 0x2;

pub const TAG_CELL: u8 = 0x3;

pub const TAG_CELL_NAME: u8 = 0x4;

pub const TAG_CELL_VALUE: u8 = 0x5;

pub const TAG_CELL_TYPE: u8 = 0x6;

pub const TAG_CELL_TIMESTAMP: u8 = 0x7;

pub const TAG_ROW_DELETE_MARKER: u8 = 0x8;

pub const TAG_ROW_CHECKSUM: u8 = 0x9;

pub const TAG_CELL_CHECKSUM: u8 = 0xA;

pub const VT_INTEGER: u8 = 0x0;

pub const VT_DOUBLE: u8 = 0x1;

pub const VT_BOOLEAN: u8 = 0x2;

pub const VT_STRING: u8 = 0x3;

pub const VT_NULL: u8 = 0x6;

pub const VT_BLOB: u8 = 0x7;

pub const VT_INF_MIN: u8 = 0x9;

pub const VT_INF_MAX: u8 = 0xA;

pub const VT_AUTO_INCREMENT: u8 = 0xB;

/// The tag bytes that introduce each element of an encoded row.
#[derive(Debug, Copy, Clone, Eq, PartialEq, Structural)]
pub enum Tag {
    Nil,
    RowKey,
    RowData,
    Cell,
    CellName,
    CellValue,
    CellType,
    CellTimestamp,
    RowDeleteMarker,
    RowChecksum,
    CellChecksum,
}

/// The variant-type bytes that name a cell value's type.
#[derive(Debug, Copy, Clone, Eq, PartialEq, Structural)]
pub enum VariantType {
    Integer,
    Double,
    Boolean,
    String,
    Null,
    Blob,
    InfMin,
    InfMax,
    AutoIncrement,
}

/// The wire byte of each tag.
pub open spec fn spec_tag_byte(t: Tag) -> u8 {
    match t {
        Tag::Nil => TAG_NONE,
        Tag::RowKey => TAG_ROW_KEY,
        Tag::RowData => TAG_ROW_DATA,
        Tag::Cell => TAG_CELL,
        Tag::CellName => TAG_CELL_NAME,
        Tag::CellValue => TAG_CELL_VALUE,
        Tag::CellType => TAG_CELL_TYPE,
        Tag::CellTimestamp => TAG_CELL_TIMESTAMP,
        Tag::RowDeleteMarker => TAG_ROW_DELETE_MARKER,
        Tag::RowChecksum => TAG_ROW_CHECKSUM,
        Tag::CellChecksum => TAG_CELL_CHECKSUM,
    }
}

/// The wire byte of each variant type.
pub open spec fn spec_variant_byte(v: VariantType) -> u8 {
    match v {
        VariantType::Integer => VT_INTEGER,
        VariantType::Double => VT_DOUBLE,
        VariantType::Boolean => VT_BOOLEAN,
        VariantType::String => VT_STRING,
        VariantType::Null => VT_NULL,
        VariantType::Blob => VT_BLOB,
        VariantType::InfMin => VT_INF_MIN,
        VariantType::InfMax => VT_INF_MAX,
        VariantType::AutoIncrement => VT_AUTO_INCREMENT,
    }
}

impl Tag {
    /// The wire byte of this tag.
    pub fn as_byte(self) -> (r: u8)
        ensures
            r == spec_tag_byte(self),
    {
        match self {
            Tag::Nil => TAG_NONE,
            Tag::RowKey => TAG_ROW_KEY,
            Tag::RowData => TAG_ROW_DATA,
            Tag::Cell => TAG_CELL,
            Tag::CellName => TAG_CELL_NAME,
            Tag::CellValue => TAG_CELL_VALUE,
            Tag::CellType => TAG_CELL_TYPE,
            Tag::CellTimestamp => TAG_CELL_TIMESTAMP,
            Tag::RowDeleteMarker => TAG_ROW_DELETE_MARKER,
            Tag::RowChecksum => TAG_ROW_CHECKSUM,
            Tag::CellChecksum => TAG_CELL_CHECKSUM,
        }
    }

    /// Reads a tag back from its wire byte; fails on any other byte.
    pub fn from_byte(x: u8) -> (r: Result<Tag, Error>)
        ensures
            r matches Ok(t) ==> spec_tag_byte(t) == x,
            r is Ok <==> (x == TAG_NONE || x == TAG_ROW_KEY || x == TAG_ROW_DATA || x == TAG_CELL
                || x == TAG_CELL_NAME || x == TAG_CELL_VALUE || x == TAG_CELL_TYPE
                || x == TAG_CELL_TIMESTAMP || x == TAG_ROW_DELETE_MARKER || x == TAG_ROW_CHECKSUM
                || x == TAG_CELL_CHECKSUM),
            r matches Err(e) ==> e.code == ErrorCode::CorruptedResponse,
    {
        match x {
            0x0 => Ok(Tag::Nil),
            0x1 => Ok(Tag::RowKey),
            0x2 => Ok(Tag::RowData),
            0x3 => Ok(Tag::Cell),
            0x4 => Ok(Tag::CellName),
            0x5 => Ok(Tag::CellValue),
            0x6 => Ok(Tag::CellType),
            0x7 => Ok(Tag::CellTimestamp),
            0x8 => Ok(Tag::RowDeleteMarker),
            0x9 => Ok(Tag::RowChecksum),
            0xA => Ok(Tag::CellChecksum),
            _ => Err(Error { code: ErrorCode::CorruptedResponse, message: String::new() }),
        }
    }
}

impl VariantType {
    /// The wire byte of this variant type.
    pub fn as_byte(self) -> (r: u8)
        ensures
            r == spec_variant_byte(self),
    {
        match self {
            VariantType::Integer => VT_INTEGER,
            VariantType::Double => VT_DOUBLE,
            VariantType::Boolean => VT_BOOLEAN,
            VariantType::String => VT_STRING,
            VariantType::Null => VT_NULL,
            VariantType::Blob => VT_BLOB,
            VariantType::InfMin => VT_INF_MIN,
            VariantType::InfMax => VT_INF_MAX,
            VariantType::AutoIncrement => VT_AUTO_INCREMENT,
        }
    }

    /// Reads a variant type back from its wire byte; fails on any other
    /// byte.
    pub fn from_byte(x: u8) -> (r: Result<VariantType, Error>)
        ensures
            r matches Ok(v) ==> spec_variant_byte(v) == x,
            r is Ok <==> (x == VT_INTEGER || x == VT_DOUBLE || x == VT_BOOLEAN || x == VT_STRING
                || x == VT_NULL || x == VT_BLOB || x == VT_INF_MIN || x == VT_INF_MAX
                || x == VT_AUTO_INCREMENT),
            r matches Err(e) ==> e.code == ErrorCode::CorruptedResponse,
    {
        match x {
            0x0 => Ok(VariantType::Integer),
            0x1 => Ok(VariantType::Double),
            0x2 => Ok(VariantType::Boolean),
            0x3 => Ok(VariantType::String),
            0x6 => Ok(VariantType::Null),
            0x7 => Ok(VariantType::Blob),
            0x9 => Ok(VariantType::InfMin),
            0xA => Ok(VariantType::InfMax),
            0xB => Ok(VariantType::AutoIncrement),
            _ => Err(Error { code: ErrorCode::CorruptedResponse, message: String::new() }),
        }
    }
}

} // verus!
