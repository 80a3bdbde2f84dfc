//! The one error type every failure travels through: a closed set of
//! kinds (network, protocol, concurrency, service) and a message.

use vstd::prelude::*;
use crate::strings::str_eq;

verus! {

/// The closed set of failure kinds.  The `OTS`-prefixed kinds are decoded
/// from the service's structured error payload; the others arise on the
/// client side.
#[derive(Debug, Clone, Copy, PartialEq, Eq, Structural)]
pub enum ErrorCode {
    ClientUnknown,
    NetworkUnknown,
    CouldntResolveHost,
    CouldntConnect,
    OperationTimeout,
    SslHandshakeFail,
    WriteRequestFail,
    CorruptedResponse,
    NoAvailableConnection,
    OTSUnknown,
    OTSOutOfColumnCountLimit,
    OTSObjectNotExist,
    OTSServerBusy,
    OTSCapacityUnitExhausted,
    OTSTooFrequentReservedThroughputAdjustment,
    OTSInternalServerError,
    OTSQuotaExhausted,
    OTSRequestBodyTooLarge,
    OTSTimeout,
    OTSObjectAlreadyExist,
    OTSTableNotReady,
    OTSConditionCheckFail,
    OTSOutOfRowSizeLimit,
    OTSInvalidPK,
    OTSMethodNotAllowed,
    OTSAuthFailed,
    OTSServerUnavailable,
    OTSParameterInvalid,
    OTSRowOperationConflict,
    OTSPartitionUnavailable,
    OTSMissingHeader,
}

/// What a failed call reports: a classified kind and a human-readable
/// message.
#[derive(Debug, Clone)]
pub struct Error {
    pub code: ErrorCode,
    pub message: String,
}

/// The kind that a service error payload's string code names; codes not in
/// the closed table fall back to `OTSUnknown`.
pub open spec fn spec_service_error_kind(code: Seq<char>) -> ErrorCode {
    if code == "OTSOutOfColumnCountLimit"@ {
        ErrorCode::OTSOutOfColumnCountLimit
    } else if code == "OTSObjectNotExist"@ {
        ErrorCode::OTSObjectNotExist
    } else if code == "OTSServerBusy"@ {
        ErrorCode::OTSServerBusy
    } else if code == "OTSCapacityUnitExhausted"@ {
        ErrorCode::OTSCapacityUnitExhausted
    } else if code == "OTSTooFrequentReservedThroughputAdjustment"@ {
        ErrorCode::OTSTooFrequentReservedThroughputAdjustment
    } else if code == "OTSInternalServerError"@ {
        ErrorCode::OTSInternalServerError
    } else if code == "OTSQuotaExhausted"@ {
        ErrorCode::OTSQuotaExhausted
    } else if code == "OTSRequestBodyTooLarge"@ {
        ErrorCode::OTSRequestBodyTooLarge
    } else if code == "OTSTimeout"@ {
        ErrorCode::OTSTimeout
    } else if code == "OTSObjectAlreadyExist"@ {
        ErrorCode::OTSObjectAlreadyExist
    } else if code == "OTSTableNotReady"@ {
        ErrorCode::OTSTableNotReady
    } else if code == "OTSConditionCheckFail"@ {
        ErrorCode::OTSConditionCheckFail
    } else if code == "OTSOutOfRowSizeLimit"@ {
        ErrorCode::OTSOutOfRowSizeLimit
    } else if code == "OTSInvalidPK"@ {
        ErrorCode::OTSInvalidPK
    } else if code == "OTSRequestTimeout"@ {
        ErrorCode::OTSTimeout
    } else if code == "OTSMethodNotAllowed"@ {
        ErrorCode::OTSMethodNotAllowed
    } else if code == "OTSAuthFailed"@ {
        ErrorCode::OTSAuthFailed
    } else if code == "OTSServerUnavailable"@ {
        ErrorCode::OTSServerUnavailable
    } else if code == "OTSParameterInvalid"@ {
        ErrorCode::OTSParameterInvalid
    } else if code == "OTSRowOperationConflict"@ {
        ErrorCode::OTSRowOperationConflict
    } else if code == "OTSPartitionUnavailable"@ {
        ErrorCode::OTSPartitionUnavailable
    } else if code == "OTSMissingHeader"@ {
        ErrorCode::OTSMissingHeader
    } else {
        ErrorCode::OTSUnknown
    }
}

/// Maps the string code of a decoded service error payload to its kind.
pub fn service_error_kind(code: &str) -> (r: ErrorCode)
    ensures
        r == spec_service_error_kind(code@),
{
    if str_eq(code, "OTSOutOfColumnCountLimit") {
        ErrorCode::OTSOutOfColumnCountLimit
    } else if str_eq(code, "OTSObjectNotExist") {
        ErrorCode::OTSObjectNotExist
    } else if str_eq(code, "OTSServerBusy") {
        ErrorCode::OTSServerBusy
    } else if str_eq(code, "OTSCapacityUnitExhausted") {
        ErrorCode::OTSCapacityUnitExhausted
    } else if str_eq(code, "OTSTooFrequentReservedThroughputAdjustment") {
        ErrorCode::OTSTooFrequentReservedThroughputAdjustment
    } else if str_eq(code, "OTSInternalServerError") {
        ErrorCode::OTSInternalServerError
    } else if str_eq(code, "OTSQuotaExhausted") {
        ErrorCode::OTSQuotaExhausted
    } else if str_eq(code, "OTSRequestBodyTooLarge") {
        ErrorCode::OTSRequestBodyTooLarge
    } else if str_eq(code, "OTSTimeout") {
        ErrorCode::OTSTimeout
    } else if str_eq(code, "OTSObjectAlreadyExist") {
        ErrorCode::OTSObjectAlreadyExist
    } else if str_eq(code, "OTSTableNotReady") {
        ErrorCode::OTSTableNotReady
    } else if str_eq(code, "OTSConditionCheckFail") {
        ErrorCode::OTSConditionCheckFail
    } else if str_eq(code, "OTSOutOfRowSizeLimit") {
        ErrorCode::OTSOutOfRowSizeLimit
    } else if str_eq(code, "OTSInvalidPK") {
        ErrorCode::OTSInvalidPK
    } else if str_eq(code, "OTSRequestTimeout") {
        ErrorCode::OTSTimeout
    } else if str_eq(code, "OTSMethodNotAllowed") {
        ErrorCode::OTSMethodNotAllowed
    } else if str_eq(code, "OTSAuthFailed") {
        ErrorCode::OTSAuthFailed
    } else if str_eq(code, "OTSServerUnavailable") {
        ErrorCode::OTSServerUnavailable
    } else if str_eq(code, "OTSParameterInvalid") {
        ErrorCode::OTSParameterInvalid
    } else if str_eq(code, "OTSRowOperationConflict") {
        ErrorCode::OTSRowOperationConflict
    } else if str_eq(code, "OTSPartitionUnavailable") {
        ErrorCode::OTSPartitionUnavailable
    } else if str_eq(code, "OTSMissingHeader") {
        ErrorCode::OTSMissingHeader
    } else {
        ErrorCode::OTSUnknown
    }
}

} // verus!
