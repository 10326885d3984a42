//! Status codes of remote calls.
use vstd::prelude::*;

verus! {

/// Code of a remote call's status.
#[derive(Debug, Clone, Copy, PartialEq, Eq, Structural)]
pub enum StatusCode {
    Success,
    Cancelled,
    Unknown,
    InvalidArgument,
    DeadlineExceeded,
    NotFound,
    AlreadyExists,
    PermissionDenied,
    ResourceExhausted,
    FailedPrecondition,
    Aborted,
    OutOfRange,
    Unimplemented,
    Internal,
    Unavailable,
    DataLoss,
    Unauthenticated,
}

/// A status: its code and a message.
#[derive(Debug, PartialEq, Eq)]
pub struct CallStatus {
    pub code: StatusCode,
    pub message: String,
}

/// Contents of a status.
pub struct CallStatusView {
    pub code: StatusCode,
    pub message: Seq<char>,
}

impl View for CallStatus {
    type V = CallStatusView;

    open spec fn view(&self) -> CallStatusView {
        CallStatusView { code: self.code, message: self.message@ }
    }
}

/// The status of a code with a message.
pub open spec fn status(code: StatusCode, message: Seq<char>) -> CallStatusView {
    CallStatusView { code, message }
}

impl CallStatus {
    /// The status of a code with a message.
    pub fn new(code: StatusCode, message: &str) -> (r: Self)
        ensures
            r@ == status(code, message@),
    {
        CallStatus { code, message: message.to_owned() }
    }
}

} // verus!
