//! Leases, watches and maintenance.
use crate::core_error::{CoordErrorCode, CoreError};
use crate::counters::Count;
use crate::plugin::sdk::wire::WatchEvent;
use crate::proxy::error;
use crate::proxy::error::{ProxyError, ProxyErrorView};
use crate::status;
use crate::status::{CallStatus, StatusCode};
use vstd::prelude::*;

verus! {

// ---- leases ----

/// A granted lease.
#[derive(Debug, Clone, Copy, PartialEq, Eq, Structural)]
pub struct LeaseGrant {
    pub id: i64,
    pub ttl: i64,
}

/// What a lease request is answered: the cluster's lease, or a placeholder where there is no
/// cluster, with the time to live that was asked for.
pub fn lease_answer(ttl: i64, id: i64, granted: Option<Result<i64, CoreError>>) -> (r: Result<
    LeaseGrant,
    ProxyError,
>)
    ensures
        match granted {
            None => r == Ok::<LeaseGrant, ProxyError>(
                LeaseGrant {
                    id: if id != 0 {
                        id
                    } else {
                        1
                    },
                    ttl,
                },
            ),
            Some(Ok(lease)) => r == Ok::<LeaseGrant, ProxyError>(LeaseGrant { id: lease, ttl }),
            Some(Err(e)) => r matches Err(f) && f@ == error::cluster_failure(e),
        },
{
    match granted {
        None => {
            let placeholder: i64 = if id != 0 {
                id
            } else {
                1
            };
            Ok(LeaseGrant { id: placeholder, ttl })
        },
        Some(Ok(lease)) => Ok(LeaseGrant { id: lease, ttl }),
        Some(Err(e)) => Err(ProxyError::of_cluster(&e)),
    }
}

/// What a revocation is answered, and whether the read cache is cleared: the keys that went with
/// the lease are unknown, so all cached values go with it.
pub fn revoke_answer(revoked: Option<Result<(), CoreError>>) -> (r: (Result<(), ProxyError>, bool))
    ensures
        match revoked {
            None => r.0 is Ok && !r.1,
            Some(Ok(_)) => r.0 is Ok && r.1,
            Some(Err(e)) => (r.0 matches Err(f) && f@ == error::cluster_failure(e)) && !r.1,
        },
{
    match revoked {
        None => (Ok(()), false),
        Some(Ok(_)) => (Ok(()), true),
        Some(Err(e)) => (Err(ProxyError::of_cluster(&e)), false),
    }
}

/// What a keep-alive is answered, and whether the stream goes on: it ends with the first failure.
/// Where there is no cluster, nothing is answered and the stream ends at once.
pub fn keep_alive_answer(id: i64, renewed: Option<Result<i64, CoreError>>) -> (r: (Option<
    Result<LeaseGrant, ProxyError>,
>, bool))
    ensures
        match renewed {
            None => r.0 is None && !r.1,
            Some(Ok(ttl)) => r.0 == Some(Ok::<LeaseGrant, ProxyError>(LeaseGrant { id, ttl })) && r.1,
            Some(Err(e)) => (r.0 matches Some(Err(f)) && f@ == error::cluster_failure(e)) && !r.1,
        },
{
    match renewed {
        None => (None, false),
        Some(Ok(ttl)) => (Some(Ok(LeaseGrant { id, ttl })), true),
        Some(Err(e)) => (Some(Err(ProxyError::of_cluster(&e))), false),
    }
}

// ---- watches ----

/// What a subscription asks for.
#[derive(Debug, PartialEq, Eq)]
pub struct WatchCreate {
    pub key: Vec<u8>,
    pub range_end: Vec<u8>,
    pub start_revision: i64,
}

/// First frame of a watch stream.
#[derive(Debug)]
pub enum FirstFrame {
    Create(WatchCreate),
    /// A frame of another kind.
    Other,
    /// The stream ended.
    End,
    /// The stream failed.
    Failed(String),
}

/// What becomes of a watch stream.
#[derive(Debug)]
pub enum WatchOpening {
    Refuse(ProxyError),
    /// A stream without events: none was asked for.
    Empty,
    /// A stream without events: there is no cluster that they could come from.
    Idle,
    /// Events of the cluster, from a prefix and a revision on.
    Subscribe { prefix: Vec<u8>, start_revision: i64 },
}

/// Contents of [`WatchOpening`].
pub enum WatchOpeningView {
    Refuse(ProxyErrorView),
    Empty,
    Idle,
    Subscribe { prefix: Seq<u8>, start_revision: i64 },
}

impl View for WatchOpening {
    type V = WatchOpeningView;

    open spec fn view(&self) -> WatchOpeningView {
        match *self {
            WatchOpening::Refuse(e) => WatchOpeningView::Refuse(e@),
            WatchOpening::Empty => WatchOpeningView::Empty,
            WatchOpening::Idle => WatchOpeningView::Idle,
            WatchOpening::Subscribe { prefix, start_revision } => WatchOpeningView::Subscribe {
                prefix: prefix@,
                start_revision,
            },
        }
    }
}

/// What becomes of a watch stream: the first frame must subscribe, and the caller's grants must
/// cover all that the subscription delivers. `denied` is why they do not.
pub open spec fn watch_opening(connected: bool, first: FirstFrame, denied: Option<Seq<char>>) -> WatchOpeningView {
    match first {
        FirstFrame::Other => WatchOpeningView::Refuse(
            error::refusal(StatusCode::InvalidArgument, "first watch request must be Create"@),
        ),
        FirstFrame::End => WatchOpeningView::Empty,
        FirstFrame::Failed(e) => WatchOpeningView::Refuse(
            error::refusal(StatusCode::Internal, "watch stream error: "@ + e@),
        ),
        FirstFrame::Create(c) => match denied {
            Some(reason) => WatchOpeningView::Refuse(
                ProxyErrorView {
                    status: status::status(StatusCode::PermissionDenied, reason),
                    code: Some(CoordErrorCode::PermissionDenied),
                },
            ),
            None => if connected {
                WatchOpeningView::Subscribe { prefix: c.key@, start_revision: c.start_revision }
            } else {
                WatchOpeningView::Idle
            },
        },
    }
}

/// What becomes of a watch stream.
pub fn open_watch(connected: bool, first: FirstFrame, scope: Result<(), String>) -> (r: WatchOpening)
    ensures
        r@ == watch_opening(connected, first, crate::plugin::reload::outcome_error(scope)),
{
    match first {
        FirstFrame::Other => WatchOpening::Refuse(
            ProxyError::refuse(StatusCode::InvalidArgument, "first watch request must be Create"),
        ),
        FirstFrame::End => WatchOpening::Empty,
        FirstFrame::Failed(e) => {
            let mut text = "watch stream error: ".to_owned();
            text.append(e.as_str());
            WatchOpening::Refuse(ProxyError::refuse(StatusCode::Internal, text.as_str()))
        },
        FirstFrame::Create(c) => match scope {
            Err(reason) => WatchOpening::Refuse(
                ProxyError {
                    status: CallStatus::new(StatusCode::PermissionDenied, reason.as_str()),
                    code: Some(CoordErrorCode::PermissionDenied),
                },
            ),
            Ok(_) => {
                if connected {
                    WatchOpening::Subscribe { prefix: c.key, start_revision: c.start_revision }
                } else {
                    WatchOpening::Idle
                }
            },
        },
    }
}

/// No subscription is opened that the caller's grants do not cover.
pub proof fn law_uncovered_watches_are_refused(connected: bool, first: FirstFrame, reason: Seq<char>)
    requires
        first is Create,
    ensures
        watch_opening(connected, first, Some(reason)) matches WatchOpeningView::Refuse(e)
            && e.status.code is PermissionDenied && e.status.message == reason && e.code == Some(
            CoordErrorCode::PermissionDenied,
        ),
{
}

/// Where there is a cluster and the grants cover it, a stream that opens with a subscription is
/// always subscribed, to the key and from the revision that the subscription names, whatever they
/// are. Only where there is no cluster is such a stream without events.
pub proof fn law_granted_watches_are_subscribed(
    connected: bool,
    create: WatchCreate,
    opening: WatchOpening,
)
    requires
        call_ensures(
            open_watch,
            (connected, FirstFrame::Create(create), Ok::<(), String>(())),
            opening,
        ),
    ensures
        connected ==> (opening matches WatchOpening::Subscribe { prefix, start_revision } && prefix@
            == create.key@ && start_revision == create.start_revision),
        !connected ==> opening is Idle,
{
}

impl WatchOpening {
    /// What the opening counts for: a subscriber more where a subscription was let through,
    /// whether there is a cluster or not.
    pub fn count(&self) -> (r: Option<Count>)
        ensures
            match r {
                Some(c) => c is WatchSubscribed && (self@ is Subscribe || self@ is Idle),
                None => self@ is Refuse || self@ is Empty,
            },
    {
        match self {
            WatchOpening::Subscribe { .. } | WatchOpening::Idle => Some(Count::WatchSubscribed),
            _ => None,
        }
    }
}

/// What follows something that a subscription received.
#[derive(Debug)]
pub enum WatchForward {
    /// Tell the read cache that all keys with this prefix are stale, then pass the event on.
    Deliver { stale: Vec<u8>, event: WatchEvent },
    /// Pass the failure on and end.
    Fail(ProxyError),
    End,
}

/// Contents of [`WatchForward`].
pub enum WatchForwardView {
    Deliver { stale: Seq<u8>, event: WatchEvent },
    Fail(ProxyErrorView),
    End,
}

impl View for WatchForward {
    type V = WatchForwardView;

    open spec fn view(&self) -> WatchForwardView {
        match *self {
            WatchForward::Deliver { stale, event } => WatchForwardView::Deliver {
                stale: stale@,
                event,
            },
            WatchForward::Fail(e) => WatchForwardView::Fail(e@),
            WatchForward::End => WatchForwardView::End,
        }
    }
}

/// A subscription whose events are passed on.
#[derive(Debug)]
pub struct WatchTask {
    prefix: Vec<u8>,
    open: bool,
}

/// Contents of [`WatchTask`].
pub struct WatchTaskView {
    /// What the subscription watches.
    pub prefix: Seq<u8>,
    /// Whether events are still passed on.
    pub open: bool,
}

impl View for WatchTask {
    type V = WatchTaskView;

    closed spec fn view(&self) -> WatchTaskView {
        WatchTaskView { prefix: self.prefix@, open: self.open }
    }
}

/// What follows something that a subscription received: every event makes the cached values under
/// the watched prefix stale, and the subscription ends with a failure and with the stream.
pub open spec fn watch_forward(task: WatchTaskView, received: Option<Result<WatchEvent, CoreError>>) -> (
    WatchTaskView,
    WatchForwardView,
) {
    let over = WatchTaskView { open: false, ..task };
    if !task.open {
        (task, WatchForwardView::End)
    } else {
        match received {
            Some(Ok(event)) => (task, WatchForwardView::Deliver { stale: task.prefix, event }),
            Some(Err(e)) => (over, WatchForwardView::Fail(error::cluster_failure(e))),
            None => (over, WatchForwardView::End),
        }
    }
}

impl WatchTask {
    /// A subscription to a prefix.
    pub fn new(prefix: Vec<u8>) -> (r: Self)
        ensures
            r@ == (WatchTaskView { prefix: prefix@, open: true }),
    {
        WatchTask { prefix, open: true }
    }

    /// Whether events are still passed on.
    pub fn is_open(&self) -> (r: bool)
        ensures
            r == self@.open,
    {
        self.open
    }

    /// What follows something that the subscription received, and what it counts for: a subscriber
    /// less where the subscription ends with it.
    pub fn forward(&mut self, received: Option<Result<WatchEvent, CoreError>>) -> (r: (
        WatchForward,
        Option<Count>,
    ))
        ensures
            (final(self)@, r.0@) == watch_forward(old(self)@, received),
            match r.1 {
                Some(c) => c is WatchUnsubscribed && old(self)@.open && !final(self)@.open,
                None => old(self)@.open == final(self)@.open,
            },
    {
        if !self.open {
            return (WatchForward::End, None);
        }
        match received {
            Some(Ok(event)) => (
                WatchForward::Deliver { stale: self.prefix.clone(), event },
                None,
            ),
            Some(Err(e)) => {
                self.open = false;
                (WatchForward::Fail(ProxyError::of_cluster(&e)), Some(Count::WatchUnsubscribed))
            },
            None => {
                self.open = false;
                (WatchForward::End, Some(Count::WatchUnsubscribed))
            },
        }
    }

    /// The subscriber went away: the subscription ends, and counts for a subscriber less where it
    /// had not ended before.
    pub fn leave(&mut self) -> (r: Option<Count>)
        ensures
            final(self)@ == (WatchTaskView { open: false, ..old(self)@ }),
            match r {
                Some(c) => c is WatchUnsubscribed && old(self)@.open,
                None => !old(self)@.open,
            },
    {
        if self.open {
            self.open = false;
            Some(Count::WatchUnsubscribed)
        } else {
            None
        }
    }
}

/// Every event that a subscription passes on makes what is cached under its prefix stale first,
/// and one that ended, with a failure, with its stream or with its subscriber, passes nothing on
/// any more.
pub proof fn law_ended_watches_stay_silent(
    task: WatchTaskView,
    received: Option<Result<WatchEvent, CoreError>>,
    later: Option<Result<WatchEvent, CoreError>>,
)
    ensures
        ({
            let (after, first) = watch_forward(task, received);
            let (last, second) = watch_forward(after, later);
            &&& after.prefix == task.prefix
            &&& first matches WatchForwardView::Deliver { stale, event } ==> stale == task.prefix
                && received == Some(Ok::<WatchEvent, CoreError>(event))
            &&& !(first is Deliver) ==> second is End && !last.open
        }),
{
}

// ---- maintenance ----

/// A maintenance call.
#[derive(Debug, Clone, Copy, PartialEq, Eq, Structural)]
pub enum MaintenanceCall {
    Seal,
    Unseal,
    Status,
    Snapshot,
    Compact,
    MemberAdd,
    Join,
    MemberRemove,
    MemberPromote,
    MemberList,
}

/// Status of a cluster.
#[derive(Debug, PartialEq, Eq)]
pub struct ClusterStatus {
    pub revision: i64,
    pub raft_index: u64,
    pub raft_term: u64,
    pub raft_leader: String,
    pub seal_status: String,
}

/// Whether a status is the placeholder: nothing is known of the cluster, and it is not sealed.
pub open spec fn placeholder_status(s: ClusterStatus) -> bool {
    &&& s.revision == 0
    &&& s.raft_index == 0
    &&& s.raft_term == 0
    &&& s.raft_leader@ == Seq::<char>::empty()
    &&& s.seal_status@ == PLACEHOLDER_SEAL_STATUS@
}

/// What becomes of a maintenance call.
#[derive(Debug)]
pub enum MaintenanceRoute {
    /// The cluster answers.
    Forward,
    /// This placeholder is answered.
    Placeholder(ClusterStatus),
    /// A stream without parts is answered.
    Empty,
    Refuse(ProxyError),
}

/// Why a maintenance call is refused where there is no cluster, or whatever there is.
pub open spec fn maintenance_refusal(call: MaintenanceCall) -> Seq<char> {
    match call {
        MaintenanceCall::Seal => "seal proxy not yet implemented"@,
        MaintenanceCall::Unseal => "unseal proxy not yet implemented"@,
        MaintenanceCall::Compact => "compact not available via agent proxy"@,
        MaintenanceCall::MemberAdd => "member_add proxy not yet implemented"@,
        MaintenanceCall::Join => "join not available via agent proxy"@,
        MaintenanceCall::MemberRemove => "member_remove proxy not yet implemented"@,
        MaintenanceCall::MemberPromote => "member_promote proxy not yet implemented"@,
        MaintenanceCall::MemberList => "member_list proxy not yet implemented"@,
        _ => Seq::empty(),
    }
}

/// Whether the cluster answers a maintenance call; membership is changed at the servers only.
pub open spec fn forwarded(call: MaintenanceCall) -> bool {
    match call {
        MaintenanceCall::Seal
        | MaintenanceCall::Unseal
        | MaintenanceCall::Status
        | MaintenanceCall::MemberList => true,
        _ => false,
    }
}

/// What becomes of a maintenance call.
pub fn maintenance_route(connected: bool, call: MaintenanceCall) -> (r: MaintenanceRoute)
    ensures
        if connected && forwarded(call) {
            r is Forward
        } else {
            match call {
                MaintenanceCall::Status => r matches MaintenanceRoute::Placeholder(s)
                    && placeholder_status(s),
                MaintenanceCall::Snapshot => r is Empty,
                _ => r matches MaintenanceRoute::Refuse(e) && e@ == error::refusal(
                    StatusCode::Unimplemented,
                    maintenance_refusal(call),
                ),
            }
        },
{
    let text = match call {
        MaintenanceCall::Seal => {
            if connected {
                return MaintenanceRoute::Forward;
            }
            "seal proxy not yet implemented"
        },
        MaintenanceCall::Unseal => {
            if connected {
                return MaintenanceRoute::Forward;
            }
            "unseal proxy not yet implemented"
        },
        MaintenanceCall::Status => {
            if connected {
                return MaintenanceRoute::Forward;
            }
            return MaintenanceRoute::Placeholder(
                ClusterStatus {
                    revision: 0,
                    raft_index: 0,
                    raft_term: 0,
                    raft_leader: String::new(),
                    seal_status: PLACEHOLDER_SEAL_STATUS.to_owned(),
                },
            );
        },
        MaintenanceCall::Snapshot => {
            return MaintenanceRoute::Empty;
        },
        MaintenanceCall::Compact => "compact not available via agent proxy",
        MaintenanceCall::MemberAdd => "member_add proxy not yet implemented",
        MaintenanceCall::Join => "join not available via agent proxy",
        MaintenanceCall::MemberRemove => "member_remove proxy not yet implemented",
        MaintenanceCall::MemberPromote => "member_promote proxy not yet implemented",
        MaintenanceCall::MemberList => {
            if connected {
                return MaintenanceRoute::Forward;
            }
            "member_list proxy not yet implemented"
        },
    };
    MaintenanceRoute::Refuse(ProxyError::refuse(StatusCode::Unimplemented, text))
}

/// Seal state that the placeholder reports.
pub const PLACEHOLDER_SEAL_STATUS: &'static str = "unsealed";

} // verus!
