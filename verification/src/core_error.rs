//! Failures of the coordination client, and what they mean to callers.
use crate::plugin::sdk::backend::{SdkError, SdkErrorCode};
use crate::status::{CallStatus, CallStatusView, StatusCode};
use crate::text::decimal_int_text;
use vstd::prelude::*;

verus! {

/// Kind of a failure, with what its meaning depends on.
#[derive(Debug)]
pub enum CoreErrorKind {
    NotFound { key: String },
    LeaseNotFound { lease_id: i64 },
    NotLeader,
    NotLeaderNoHint,
    ClusterUnavailable(String),
    RequestTimeout,
    PermissionDenied(String),
    Unauthenticated(String),
    Backpressure(String),
    WatchTooManyConnections,
    TxnTooLarge,
    TxnCompareFailed,
    InvalidArgument(String),
    LeaseTtlOutOfRange,
    AlreadyExists { key: String },
    RevisionCompacted,
    ClusterSealed,
    ClusterUnsealing,
    Storage(String),
    Other,
}

/// A failure: its kind and the text that the client gives it.
#[derive(Debug)]
pub struct CoreError {
    pub kind: CoreErrorKind,
    pub text: String,
}

impl CoreError {
    /// A failure of a kind with a text.
    pub fn new(kind: CoreErrorKind, text: &str) -> (r: Self)
        ensures
            r.kind == kind,
            r.text@ == text@,
    {
        CoreError { kind, text: text.to_owned() }
    }
}

/// Error class of a failure, as plugins see it.
pub open spec fn sdk_class(kind: CoreErrorKind) -> SdkErrorCode {
    match kind {
        CoreErrorKind::NotFound { .. } | CoreErrorKind::LeaseNotFound { .. } => SdkErrorCode::NotFound,
        CoreErrorKind::NotLeader
        | CoreErrorKind::NotLeaderNoHint
        | CoreErrorKind::ClusterUnavailable(_)
        | CoreErrorKind::RequestTimeout => SdkErrorCode::Unavailable,
        CoreErrorKind::PermissionDenied(_) | CoreErrorKind::Unauthenticated(_) => SdkErrorCode::Forbidden,
        CoreErrorKind::Backpressure(_)
        | CoreErrorKind::WatchTooManyConnections
        | CoreErrorKind::TxnTooLarge => SdkErrorCode::ResourceExhausted,
        CoreErrorKind::InvalidArgument(_) | CoreErrorKind::LeaseTtlOutOfRange => SdkErrorCode::InvalidArgument,
        _ => SdkErrorCode::Internal,
    }
}

/// The error that a plugin sees of a failure: its class, with the client's text.
pub fn map_core_error(e: &CoreError) -> (r: SdkError)
    ensures
        r@ == crate::plugin::sdk::backend::sdk_error(sdk_class(e.kind), e.text@),
{
    let code = match &e.kind {
        CoreErrorKind::NotFound { .. } | CoreErrorKind::LeaseNotFound { .. } => SdkErrorCode::NotFound,
        CoreErrorKind::NotLeader
        | CoreErrorKind::NotLeaderNoHint
        | CoreErrorKind::ClusterUnavailable(_)
        | CoreErrorKind::RequestTimeout => SdkErrorCode::Unavailable,
        CoreErrorKind::PermissionDenied(_) | CoreErrorKind::Unauthenticated(_) => SdkErrorCode::Forbidden,
        CoreErrorKind::Backpressure(_)
        | CoreErrorKind::WatchTooManyConnections
        | CoreErrorKind::TxnTooLarge => SdkErrorCode::ResourceExhausted,
        CoreErrorKind::InvalidArgument(_) | CoreErrorKind::LeaseTtlOutOfRange => SdkErrorCode::InvalidArgument,
        _ => SdkErrorCode::Internal,
    };
    SdkError::new(code, e.text.as_str())
}

/// Structured code that accompanies a status, by which clients decide whether to retry.
#[derive(Debug, Clone, Copy, PartialEq, Eq, Structural)]
pub enum CoordErrorCode {
    NotFound,
    NotLeader,
    Unavailable,
    DeadlineExceeded,
    PermissionDenied,
    Unauthenticated,
    InvalidArgument,
    AlreadyExists,
    TxnCasFailed,
    FailedPrecondition,
    OutOfRange,
    ResourceExhausted,
    Internal,
}

/// Key of the trailer that a structured code travels in.
pub const ERROR_CODE_TRAILER: &'static str = "x-coord-error-code";

/// Name of a structured code, as callers read it in the trailer.
pub open spec fn error_code_text(code: CoordErrorCode) -> Seq<char> {
    match code {
        CoordErrorCode::NotFound => "NOT_FOUND"@,
        CoordErrorCode::NotLeader => "NOT_LEADER"@,
        CoordErrorCode::Unavailable => "UNAVAILABLE"@,
        CoordErrorCode::DeadlineExceeded => "DEADLINE_EXCEEDED"@,
        CoordErrorCode::PermissionDenied => "PERMISSION_DENIED"@,
        CoordErrorCode::Unauthenticated => "UNAUTHENTICATED"@,
        CoordErrorCode::InvalidArgument => "INVALID_ARGUMENT"@,
        CoordErrorCode::AlreadyExists => "ALREADY_EXISTS"@,
        CoordErrorCode::TxnCasFailed => "TXN_CAS_FAILED"@,
        CoordErrorCode::FailedPrecondition => "FAILED_PRECONDITION"@,
        CoordErrorCode::OutOfRange => "OUT_OF_RANGE"@,
        CoordErrorCode::ResourceExhausted => "RESOURCE_EXHAUSTED"@,
        CoordErrorCode::Internal => "INTERNAL"@,
    }
}

impl CoordErrorCode {
    /// Name of the code.
    pub fn as_str(self) -> (r: &'static str)
        ensures
            r@ == error_code_text(self),
    {
        match self {
            CoordErrorCode::NotFound => "NOT_FOUND",
            CoordErrorCode::NotLeader => "NOT_LEADER",
            CoordErrorCode::Unavailable => "UNAVAILABLE",
            CoordErrorCode::DeadlineExceeded => "DEADLINE_EXCEEDED",
            CoordErrorCode::PermissionDenied => "PERMISSION_DENIED",
            CoordErrorCode::Unauthenticated => "UNAUTHENTICATED",
            CoordErrorCode::InvalidArgument => "INVALID_ARGUMENT",
            CoordErrorCode::AlreadyExists => "ALREADY_EXISTS",
            CoordErrorCode::TxnCasFailed => "TXN_CAS_FAILED",
            CoordErrorCode::FailedPrecondition => "FAILED_PRECONDITION",
            CoordErrorCode::OutOfRange => "OUT_OF_RANGE",
            CoordErrorCode::ResourceExhausted => "RESOURCE_EXHAUSTED",
            CoordErrorCode::Internal => "INTERNAL",
        }
    }
}

/// Status and structured code of a failure, as callers of the proxy see it.
pub open spec fn proxy_status(e: CoreError) -> (CallStatusView, CoordErrorCode) {
    match e.kind {
        CoreErrorKind::NotFound { key } => (
            crate::status::status(StatusCode::NotFound, key@),
            CoordErrorCode::NotFound,
        ),
        CoreErrorKind::NotLeader | CoreErrorKind::NotLeaderNoHint => (
            crate::status::status(StatusCode::Unavailable, "not leader"@),
            CoordErrorCode::NotLeader,
        ),
        CoreErrorKind::ClusterUnavailable(m) => (
            crate::status::status(StatusCode::Unavailable, m@),
            CoordErrorCode::Unavailable,
        ),
        CoreErrorKind::RequestTimeout => (
            crate::status::status(StatusCode::DeadlineExceeded, "request timeout"@),
            CoordErrorCode::DeadlineExceeded,
        ),
        CoreErrorKind::PermissionDenied(m) => (
            crate::status::status(StatusCode::PermissionDenied, m@),
            CoordErrorCode::PermissionDenied,
        ),
        CoreErrorKind::Unauthenticated(m) => (
            crate::status::status(StatusCode::Unauthenticated, m@),
            CoordErrorCode::Unauthenticated,
        ),
        CoreErrorKind::InvalidArgument(m) => (
            crate::status::status(StatusCode::InvalidArgument, m@),
            CoordErrorCode::InvalidArgument,
        ),
        CoreErrorKind::AlreadyExists { key } => (
            crate::status::status(StatusCode::AlreadyExists, key@),
            CoordErrorCode::AlreadyExists,
        ),
        CoreErrorKind::LeaseNotFound { lease_id } => (
            crate::status::status(
                StatusCode::NotFound,
                "lease "@ + crate::text::decimal_int(lease_id as int) + " not found"@,
            ),
            CoordErrorCode::NotFound,
        ),
        CoreErrorKind::TxnCompareFailed => (
            crate::status::status(StatusCode::Aborted, "txn compare failed"@),
            CoordErrorCode::TxnCasFailed,
        ),
        CoreErrorKind::RevisionCompacted
        | CoreErrorKind::ClusterSealed
        | CoreErrorKind::ClusterUnsealing => (
            crate::status::status(StatusCode::FailedPrecondition, e.text@),
            CoordErrorCode::FailedPrecondition,
        ),
        CoreErrorKind::LeaseTtlOutOfRange => (
            crate::status::status(StatusCode::OutOfRange, e.text@),
            CoordErrorCode::OutOfRange,
        ),
        CoreErrorKind::WatchTooManyConnections | CoreErrorKind::Backpressure(_) => (
            crate::status::status(StatusCode::ResourceExhausted, e.text@),
            CoordErrorCode::ResourceExhausted,
        ),
        CoreErrorKind::TxnTooLarge | CoreErrorKind::Storage(_) | CoreErrorKind::Other => (
            crate::status::status(StatusCode::Internal, e.text@),
            CoordErrorCode::Internal,
        ),
    }
}

/// Status and structured code of a failure, as callers of the proxy see it.
pub fn core_error_status(e: &CoreError) -> (r: (CallStatus, CoordErrorCode))
    ensures
        (r.0@, r.1) == proxy_status(*e),
{
    match &e.kind {
        CoreErrorKind::NotFound { key } => (
            CallStatus::new(StatusCode::NotFound, key.as_str()),
            CoordErrorCode::NotFound,
        ),
        CoreErrorKind::NotLeader | CoreErrorKind::NotLeaderNoHint => (
            CallStatus::new(StatusCode::Unavailable, "not leader"),
            CoordErrorCode::NotLeader,
        ),
        CoreErrorKind::ClusterUnavailable(m) => (
            CallStatus::new(StatusCode::Unavailable, m.as_str()),
            CoordErrorCode::Unavailable,
        ),
        CoreErrorKind::RequestTimeout => (
            CallStatus::new(StatusCode::DeadlineExceeded, "request timeout"),
            CoordErrorCode::DeadlineExceeded,
        ),
        CoreErrorKind::PermissionDenied(m) => (
            CallStatus::new(StatusCode::PermissionDenied, m.as_str()),
            CoordErrorCode::PermissionDenied,
        ),
        CoreErrorKind::Unauthenticated(m) => (
            CallStatus::new(StatusCode::Unauthenticated, m.as_str()),
            CoordErrorCode::Unauthenticated,
        ),
        CoreErrorKind::InvalidArgument(m) => (
            CallStatus::new(StatusCode::InvalidArgument, m.as_str()),
            CoordErrorCode::InvalidArgument,
        ),
        CoreErrorKind::AlreadyExists { key } => (
            CallStatus::new(StatusCode::AlreadyExists, key.as_str()),
            CoordErrorCode::AlreadyExists,
        ),
        CoreErrorKind::LeaseNotFound { lease_id } => {
            let mut s = "lease ".to_owned();
            let d = decimal_int_text(*lease_id);
            s.append(d.as_str());
            s.append(" not found");
            (CallStatus::new(StatusCode::NotFound, s.as_str()), CoordErrorCode::NotFound)
        },
        CoreErrorKind::TxnCompareFailed => (
            CallStatus::new(StatusCode::Aborted, "txn compare failed"),
            CoordErrorCode::TxnCasFailed,
        ),
        CoreErrorKind::RevisionCompacted
        | CoreErrorKind::ClusterSealed
        | CoreErrorKind::ClusterUnsealing => (
            CallStatus::new(StatusCode::FailedPrecondition, e.text.as_str()),
            CoordErrorCode::FailedPrecondition,
        ),
        CoreErrorKind::LeaseTtlOutOfRange => (
            CallStatus::new(StatusCode::OutOfRange, e.text.as_str()),
            CoordErrorCode::OutOfRange,
        ),
        CoreErrorKind::WatchTooManyConnections | CoreErrorKind::Backpressure(_) => (
            CallStatus::new(StatusCode::ResourceExhausted, e.text.as_str()),
            CoordErrorCode::ResourceExhausted,
        ),
        CoreErrorKind::TxnTooLarge | CoreErrorKind::Storage(_) | CoreErrorKind::Other => (
            CallStatus::new(StatusCode::Internal, e.text.as_str()),
            CoordErrorCode::Internal,
        ),
    }
}

/// A caller can tell a node that is not the leader from a cluster that is unavailable, though
/// both have the same status code, and a lost comparison from an internal error.
pub proof fn law_retry_decisions_can_be_told_apart(e: CoreError)
    ensures
        proxy_status(e).1 == CoordErrorCode::NotLeader <==> e.kind is NotLeader
            || e.kind is NotLeaderNoHint,
        proxy_status(e).1 == CoordErrorCode::Unavailable <==> e.kind is ClusterUnavailable,
        proxy_status(e).1 == CoordErrorCode::TxnCasFailed <==> e.kind is TxnCompareFailed,
{
}

/// Callers read every structured code by a name of its own.
pub proof fn law_structured_codes_have_names(code: CoordErrorCode, name: &'static str)
    requires
        call_ensures(CoordErrorCode::as_str, (code,), name),
    ensures
        code is NotFound ==> name@ == "NOT_FOUND"@,
        code is NotLeader ==> name@ == "NOT_LEADER"@,
        code is Unavailable ==> name@ == "UNAVAILABLE"@,
        code is DeadlineExceeded ==> name@ == "DEADLINE_EXCEEDED"@,
        code is PermissionDenied ==> name@ == "PERMISSION_DENIED"@,
        code is Unauthenticated ==> name@ == "UNAUTHENTICATED"@,
        code is InvalidArgument ==> name@ == "INVALID_ARGUMENT"@,
        code is AlreadyExists ==> name@ == "ALREADY_EXISTS"@,
        code is TxnCasFailed ==> name@ == "TXN_CAS_FAILED"@,
        code is FailedPrecondition ==> name@ == "FAILED_PRECONDITION"@,
        code is OutOfRange ==> name@ == "OUT_OF_RANGE"@,
        code is ResourceExhausted ==> name@ == "RESOURCE_EXHAUSTED"@,
        code is Internal ==> name@ == "INTERNAL"@,
{
}

} // verus!
