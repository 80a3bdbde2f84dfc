//! The get-range operation and the scan-continuation logic built on it.

use vstd::prelude::*;
use crate::error::{Error, ErrorCode};
use crate::protocol::{encode_get_range_request, pb_get_range_request, dec_pb_get_range,
    decode_pb_get_range};
use crate::plainbuffer::serde::{encode_ext_key, decode_rows, decode_ext_key};
use crate::plainbuffer::spec::{wf_cols, enc_pbuf_key, dec_pbuf_rows, dec_pbuf_key};
use super::common::Name;
use super::row::Row;
use super::rowkey::{ExtendedRowKey, KeyOrder, compare_keys, spec_cmp_key, ColumnModel};
use super::action::Action;
use super::{Request, BaseResponse};

verus! {

/// The get-range request: the table and the scan boundaries.  The scan
/// direction is inferred from the boundaries' relative order.
#[derive(Debug)]
pub struct GetRangeRequest {
    pub table_name: Name,
    pub inclusive_start: ExtendedRowKey,
    pub exclusive_end: ExtendedRowKey,
}

impl Clone for GetRangeRequest {
    fn clone(&self) -> (r: Self)
        ensures
            r.table_name@ == self.table_name@,
            r.inclusive_start@ == self.inclusive_start@,
            r.exclusive_end@ == self.exclusive_end@,
    {
        GetRangeRequest {
            table_name: self.table_name.clone(),
            inclusive_start: self.inclusive_start.clone(),
            exclusive_end: self.exclusive_end.clone(),
        }
    }
}

/// The get-range response: the decoded rows and the continuation key,
/// absent when the scan is complete.
#[derive(Debug)]
pub struct GetRangeResponse {
    pub base: BaseResponse,
    pub rows: Vec<Row>,
    pub next_row_key: Option<ExtendedRowKey>,
}

/// Whether the scan runs backward: exactly when the inclusive start is
/// not at or before the exclusive end.
pub open spec fn spec_scan_backward(start: Seq<ColumnModel>, end: Seq<ColumnModel>) -> bool {
    !(spec_cmp_key(start, end) == KeyOrder::Less || spec_cmp_key(start, end) == KeyOrder::Equal)
}

impl GetRangeRequest {
    /// The request's protobuf body: the boundaries travel inside it in
    /// the binary row codec, and the direction follows their order.
    pub fn to_body(&self) -> (r: Vec<u8>)
        requires
            wf_cols(self.inclusive_start@),
            wf_cols(self.exclusive_end@),
        ensures
            r@ == pb_get_range_request(
                self.table_name@,
                spec_scan_backward(self.inclusive_start@, self.exclusive_end@),
                enc_pbuf_key(self.inclusive_start@),
                enc_pbuf_key(self.exclusive_end@),
            ),
    {
        let c = compare_keys(&self.inclusive_start, &self.exclusive_end);
        let backward = !(matches!(c, KeyOrder::Less) || matches!(c, KeyOrder::Equal));
        let start = encode_ext_key(&self.inclusive_start);
        let end = encode_ext_key(&self.exclusive_end);
        encode_get_range_request(&self.table_name, backward, start.as_slice(), end.as_slice())
    }
}

impl Request for GetRangeRequest {
    fn action(&self) -> (r: Action)
        ensures
            r == Action::GetRange,
    {
        Action::GetRange
    }

    fn path(&self) -> (r: String)
        ensures
            r@ == super::action::spec_action_path(Action::GetRange),
    {
        Action::GetRange.path()
    }
}

/// Decodes a get-range response body: the protobuf envelope, then the
/// row batch and the optional continuation key, both in the binary row
/// codec.  Corruption anywhere fails the whole decode.
pub fn parse_get_range_body(body: &[u8]) -> (r: Result<GetRangeResponse, Error>)
    ensures
        r is Ok <==> (match dec_pb_get_range(body@, Seq::<u8>::empty(), None) {
            Some((rb, nb)) => dec_pbuf_rows(rb) is Some && (match nb {
                Some(kb) => dec_pbuf_key(kb) is Some,
                None => true,
            }),
            None => false,
        }),
        r matches Ok(resp) ==> (match dec_pb_get_range(body@, Seq::<u8>::empty(), None) {
            Some((rb, nb)) => {
                &&& dec_pbuf_rows(rb) == Some(resp.rows.deep_view())
                &&& (match nb {
                    Some(kb) => resp.next_row_key matches Some(k) && dec_pbuf_key(kb) == Some(k@),
                    None => resp.next_row_key is None,
                })
            },
            None => false,
        }),
        r matches Err(e) ==> e.code == ErrorCode::CorruptedResponse,
{
    let (rows_bytes, next_bytes) = match decode_pb_get_range(body) {
        Ok(x) => x,
        Err(e) => {
            return Err(e);
        },
    };
    let ghost nb_model = next_bytes.deep_view();
    proof {
        match &next_bytes {
            Some(kb) => {
                assert(nb_model == Some(kb@));
            },
            None => {
                assert(nb_model is None);
            },
        }
    }
    let rows = match decode_rows(rows_bytes.as_slice()) {
        Ok(x) => x,
        Err(e) => {
            return Err(e);
        },
    };
    let next_row_key = match next_bytes {
        Some(kb) => {
            proof {
                assert(nb_model == Some(kb@));
            }
            match decode_ext_key(kb.as_slice()) {
                Ok(k) => Some(k),
                Err(e) => {
                    return Err(e);
                },
            }
        },
        None => None,
    };
    Ok(GetRangeResponse { base: BaseResponse::new(), rows, next_row_key })
}

/// What a scan does after one range call: stop, or continue from a new
/// inclusive-start boundary.
#[derive(Debug)]
pub enum ScanStep {
    Done,
    Continue(ExtendedRowKey),
}

/// Whether a scan over the given boundaries runs forward: exactly when
/// the inclusive start is strictly before the exclusive end.
pub fn scan_forward(start: &ExtendedRowKey, end: &ExtendedRowKey) -> (r: bool)
    ensures
        r == (spec_cmp_key(start@, end@) == KeyOrder::Less),
{
    let c = compare_keys(start, end);
    matches!(c, KeyOrder::Less)
}

/// The scan-continuation decision: the scan stops when the server
/// reports no continuation key, or when the continuation key has
/// reached or passed the exclusive end in the scan's direction;
/// otherwise the continuation key becomes the next inclusive start.
pub fn scan_step(exclusive_end: &ExtendedRowKey, forward: bool, next_row_key: Option<
    ExtendedRowKey,
>) -> (r: ScanStep)
    ensures
        next_row_key is None ==> r is Done,
        next_row_key matches Some(k) ==> {
            let c = spec_cmp_key(k@, exclusive_end@);
            if forward {
                ((c == KeyOrder::Greater || c == KeyOrder::Equal) ==> r is Done) && (!(c
                    == KeyOrder::Greater || c == KeyOrder::Equal) ==> (r matches ScanStep::Continue(n) && n@
                    == k@))
            } else {
                ((c == KeyOrder::Less || c == KeyOrder::Equal) ==> r is Done) && (!(c
                    == KeyOrder::Less || c == KeyOrder::Equal) ==> (r matches ScanStep::Continue(n) && n@
                    == k@))
            }
        },
{
    match next_row_key {
        None => ScanStep::Done,
        Some(k) => {
            let c = compare_keys(&k, exclusive_end);
            if forward {
                if matches!(c, KeyOrder::Greater) || matches!(c, KeyOrder::Equal) {
                    ScanStep::Done
                } else {
                    ScanStep::Continue(k)
                }
            } else {
                if matches!(c, KeyOrder::Less) || matches!(c, KeyOrder::Equal) {
                    ScanStep::Done
                } else {
                    ScanStep::Continue(k)
                }
            }
        },
    }
}

} // verus!
