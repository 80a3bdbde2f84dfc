//! The binary row codec: a tagged, length-prefixed, checksummed layout
//! for row keys, attribute cells and whole rows, with a per-cell and a
//! per-row CRC8.  Corrupt input never yields a partial result.

pub mod consts;
pub mod spec;
pub mod serde;
pub mod laws;

use vstd::prelude::*;
use vstd::string::StringExecFns;
use crate::error::{Error, ErrorCode};

pub use consts::{Tag, VariantType, HEADER};

verus! {

/// The corruption error every decoding failure reports.
pub fn issue_error<T>() -> (r: Result<T, Error>)
    ensures
        r matches Err(e) && e.code == ErrorCode::CorruptedResponse,
{
    Err(
        Error {
            code: ErrorCode::CorruptedResponse,
            message: String::from_str("Fail to parse protobuf in response"),
        },
    )
}

} // verus!
