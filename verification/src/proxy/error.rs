//! Failures of proxied calls.
use crate::core_error;
use crate::core_error::{core_error_status, CoordErrorCode, CoreError};
use crate::status;
use crate::status::{CallStatus, CallStatusView, StatusCode};
use vstd::prelude::*;

verus! {

/// A failure of a proxied call: its status, and the structured code that accompanies it.
#[derive(Debug, PartialEq, Eq)]
pub struct ProxyError {
    pub status: CallStatus,
    pub code: Option<CoordErrorCode>,
}

/// Contents of [`ProxyError`].
pub struct ProxyErrorView {
    pub status: CallStatusView,
    pub code: Option<CoordErrorCode>,
}

impl View for ProxyError {
    type V = ProxyErrorView;

    open spec fn view(&self) -> ProxyErrorView {
        ProxyErrorView { status: self.status@, code: self.code }
    }
}

/// A failure of the cluster, as the caller sees it: every one carries a structured code.
pub open spec fn cluster_failure(e: CoreError) -> ProxyErrorView {
    ProxyErrorView {
        status: core_error::proxy_status(e).0,
        code: Some(core_error::proxy_status(e).1),
    }
}

/// A refusal by the proxy itself.
pub open spec fn refusal(code: StatusCode, message: Seq<char>) -> ProxyErrorView {
    ProxyErrorView { status: status::status(code, message), code: None }
}

impl ProxyError {
    /// A failure of the cluster.
    pub fn of_cluster(e: &CoreError) -> (r: Self)
        ensures
            r@ == cluster_failure(*e),
    {
        let (status, code) = core_error_status(e);
        ProxyError { status, code: Some(code) }
    }

    /// A refusal by the proxy itself.
    pub fn refuse(code: StatusCode, message: &str) -> (r: Self)
        ensures
            r@ == refusal(code, message@),
    {
        ProxyError { status: CallStatus::new(code, message), code: None }
    }
}

/// Contents of an answer or of a failure.
pub open spec fn answer_view<T: View>(r: Result<T, ProxyError>) -> Result<T::V, ProxyErrorView> {
    match r {
        Ok(v) => Ok(v@),
        Err(e) => Err(e@),
    }
}

} // verus!
