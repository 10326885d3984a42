//! Types of the component interface, and how calls of components become calls of the SDK.
use crate::plugin::manifest::PluginLimits;
use crate::plugin::sdk::backend;
use crate::plugin::sdk::backend::{
    Compare, CompareOp, CompareTarget, CompareView, KvDelete, KvDeleteOut, KvDeleteView, KvPut,
    KvPutOut, KvPutOutView, KvPutView, KvRange, KvRangeOut, KvRangeOutView, KvRangeView, KvRecord,
    ObjectPutOut, ObjectStatDto, SdkError, SdkErrorCode, SdkErrorView, SdkResult, TxnOp, TxnOpOut,
    TxnOpOutView, TxnOpView, TxnOut, TxnReq, WatchEventDto, WatchEventKind,
};
use vstd::prelude::*;
use vstd::utf8::*;

verus! {

/// A failure, as a component sees it.
#[derive(Debug, PartialEq, Eq)]
pub enum HostError {
    Forbidden(String),
    NotFound(String),
    InvalidArgument(String),
    Unavailable(String),
    ResourceExhausted(String),
    Conflict(String),
    Internal(String),
}

/// Contents of [`HostError`]: class and message.
pub struct HostErrorView {
    pub code: SdkErrorCode,
    pub message: Seq<char>,
}

impl View for HostError {
    type V = HostErrorView;

    open spec fn view(&self) -> HostErrorView {
        match *self {
            HostError::Forbidden(m) => HostErrorView { code: SdkErrorCode::Forbidden, message: m@ },
            HostError::NotFound(m) => HostErrorView { code: SdkErrorCode::NotFound, message: m@ },
            HostError::InvalidArgument(m) => HostErrorView {
                code: SdkErrorCode::InvalidArgument,
                message: m@,
            },
            HostError::Unavailable(m) => HostErrorView {
                code: SdkErrorCode::Unavailable,
                message: m@,
            },
            HostError::ResourceExhausted(m) => HostErrorView {
                code: SdkErrorCode::ResourceExhausted,
                message: m@,
            },
            HostError::Conflict(m) => HostErrorView { code: SdkErrorCode::Conflict, message: m@ },
            HostError::Internal(m) => HostErrorView { code: SdkErrorCode::Internal, message: m@ },
        }
    }
}

/// A failure of the SDK, as a component sees it: the same class, with the whole error line.
pub open spec fn host_error(e: SdkErrorView) -> HostErrorView {
    HostErrorView { code: e.code, message: backend::error_line(e) }
}

/// A failure of the SDK, as a component sees it.
pub fn wit_err(e: &SdkError) -> (r: HostError)
    ensures
        r@ == host_error(e@),
{
    let msg = e.to_text();
    match e.code {
        SdkErrorCode::Forbidden => HostError::Forbidden(msg),
        SdkErrorCode::NotFound => HostError::NotFound(msg),
        SdkErrorCode::InvalidArgument => HostError::InvalidArgument(msg),
        SdkErrorCode::Unavailable => HostError::Unavailable(msg),
        SdkErrorCode::ResourceExhausted => HostError::ResourceExhausted(msg),
        SdkErrorCode::Conflict => HostError::Conflict(msg),
        SdkErrorCode::Internal => HostError::Internal(msg),
    }
}

/// A component tells failures apart by class just as any other plugin does.
pub proof fn law_error_classes_reach_components(a: SdkErrorView, b: SdkErrorView)
    ensures
        host_error(a).code == host_error(b).code <==> a.code == b.code,
{
}

// ---- answers ----

/// A record.
pub fn wit_kv(rec: &KvRecord) -> (r: KvRecord)
    ensures
        r@ == rec@,
{
    KvRecord {
        key: rec.key.clone(),
        value: rec.value.clone(),
        lease_id: rec.lease_id,
        version: rec.version,
    }
}

fn wit_kvs(recs: &Vec<KvRecord>) -> (r: Vec<KvRecord>)
    ensures
        backend::views(r@) == backend::views(recs@),
{
    let mut out: Vec<KvRecord> = Vec::new();
    let mut i: usize = 0;
    while i < recs.len()
        invariant
            i <= recs@.len(),
            out@.len() == i,
            forall|k: int| 0 <= k < i ==> (#[trigger] out@[k])@ == recs@[k]@,
        decreases recs@.len() - i,
    {
        out.push(wit_kv(&recs[i]));
        i += 1;
    }
    assert(backend::views(out@) =~= backend::views(recs@));
    out
}

fn wit_opt_kv(rec: &Option<KvRecord>) -> (r: Option<KvRecord>)
    ensures
        backend::opt_view(r) == backend::opt_view(*rec),
{
    match rec {
        Some(k) => Some(wit_kv(k)),
        None => None,
    }
}

/// Answer to a write.
#[derive(Debug)]
pub struct WitPutOut {
    pub revision: i64,
    pub prev: Option<KvRecord>,
}

/// Answer to a delete; the deleted records do not cross the boundary.
#[derive(Debug, Clone, Copy, PartialEq, Eq, Structural)]
pub struct WitDeleteOut {
    pub deleted: i64,
    pub revision: i64,
}

/// Answer to an operation of a transaction.
#[derive(Debug)]
pub enum WitOpOut {
    Put(WitPutOut),
    Range(KvRangeOut),
    Delete(WitDeleteOut),
}

/// Contents of [`WitOpOut`].
pub enum WitOpOutView {
    Put(KvPutOutView),
    Range(KvRangeOutView),
    Delete(WitDeleteOut),
}

impl View for WitPutOut {
    type V = KvPutOutView;

    open spec fn view(&self) -> KvPutOutView {
        KvPutOutView { prev_kv: backend::opt_view(self.prev), revision: self.revision }
    }
}

impl View for WitOpOut {
    type V = WitOpOutView;

    open spec fn view(&self) -> WitOpOutView {
        match *self {
            WitOpOut::Put(p) => WitOpOutView::Put(p@),
            WitOpOut::Range(r) => WitOpOutView::Range(r@),
            WitOpOut::Delete(d) => WitOpOutView::Delete(d),
        }
    }
}

/// What a component sees of an answer.
pub open spec fn op_out_view(out: TxnOpOutView) -> WitOpOutView {
    match out {
        TxnOpOutView::Put(p) => WitOpOutView::Put(p),
        TxnOpOutView::Range(r) => WitOpOutView::Range(r),
        TxnOpOutView::Delete(d) => WitOpOutView::Delete(
            WitDeleteOut { deleted: d.deleted, revision: d.revision },
        ),
    }
}

/// Answer to a write.
pub fn wit_put_out(out: &KvPutOut) -> (r: WitPutOut)
    ensures
        r@ == out@,
{
    WitPutOut { revision: out.revision, prev: wit_opt_kv(&out.prev_kv) }
}

/// Answer to a read.
pub fn wit_range_out(out: &KvRangeOut) -> (r: KvRangeOut)
    ensures
        r@ == out@,
{
    KvRangeOut { kvs: wit_kvs(&out.kvs), count: out.count, revision: out.revision }
}

/// Answer to a delete.
pub fn wit_delete_out(out: &KvDeleteOut) -> (r: WitDeleteOut)
    ensures
        r.deleted == out.deleted,
        r.revision == out.revision,
{
    WitDeleteOut { deleted: out.deleted, revision: out.revision }
}

/// Answer to an operation of a transaction.
pub fn wit_txn_op_out(out: &TxnOpOut) -> (r: WitOpOut)
    ensures
        r@ == op_out_view(out@),
{
    match out {
        TxnOpOut::Put(p) => WitOpOut::Put(wit_put_out(p)),
        TxnOpOut::Range(x) => WitOpOut::Range(wit_range_out(x)),
        TxnOpOut::Delete(d) => WitOpOut::Delete(wit_delete_out(d)),
    }
}

/// Answer to a transaction.
#[derive(Debug)]
pub struct WitTxnOut {
    pub succeeded: bool,
    pub revision: i64,
    pub responses: Vec<WitOpOut>,
}

/// Answer to a transaction: every operation's answer at its place.
pub fn wit_txn_out(out: &TxnOut) -> (r: WitTxnOut)
    ensures
        r.succeeded == out.succeeded,
        r.revision == out.revision,
        backend::views(r.responses@) == Seq::new(
            out.responses@.len(),
            |i: int| op_out_view(out.responses@[i]@),
        ),
{
    let mut responses: Vec<WitOpOut> = Vec::new();
    let mut i: usize = 0;
    while i < out.responses.len()
        invariant
            i <= out.responses@.len(),
            responses@.len() == i,
            forall|k: int|
                0 <= k < i ==> (#[trigger] responses@[k])@ == op_out_view(out.responses@[k]@),
        decreases out.responses@.len() - i,
    {
        responses.push(wit_txn_op_out(&out.responses[i]));
        i += 1;
    }
    assert(backend::views(responses@) =~= Seq::new(
        out.responses@.len(),
        |i: int| op_out_view(out.responses@[i]@),
    ));
    WitTxnOut { succeeded: out.succeeded, revision: out.revision, responses }
}

/// What is known of an object.
pub fn wit_object_stat(stat: &ObjectStatDto) -> (r: ObjectStatDto)
    ensures
        r@ == stat@,
{
    ObjectStatDto {
        bucket: stat.bucket.clone(),
        object_id: stat.object_id.clone(),
        size: stat.size,
        chunks: stat.chunks,
        revision: stat.revision,
        exists: stat.exists,
        committed: stat.committed,
    }
}

/// What is known of an object that was just uploaded.
pub fn uploaded_stat(bucket: String, object_id: Vec<u8>, out: &ObjectPutOut) -> (r: ObjectStatDto)
    ensures
        r@ == (backend::ObjectStatDtoView {
            bucket: bucket@,
            object_id: object_id@,
            size: out.size,
            chunks: out.chunks,
            revision: out.revision,
            exists: true,
            committed: true,
        }),
{
    ObjectStatDto {
        bucket,
        object_id,
        size: out.size,
        chunks: out.chunks,
        revision: out.revision,
        exists: true,
        committed: true,
    }
}

/// What a component sees of an object: only one that is there and whose upload was completed.
pub fn visible_stat(stat: Option<ObjectStatDto>) -> (r: Option<ObjectStatDto>)
    ensures
        r == match stat {
            Some(s) => if s.exists && s.committed {
                Some(s)
            } else {
                None
            },
            None => None,
        },
{
    match stat {
        Some(s) => {
            if s.exists && s.committed {
                Some(s)
            } else {
                None
            }
        },
        None => None,
    }
}

/// A change.
pub fn wit_watch_event(ev: &WatchEventDto) -> (r: WatchEventDto)
    ensures
        r@ == ev@,
{
    let kind = match ev.kind {
        WatchEventKind::Put => WatchEventKind::Put,
        WatchEventKind::Delete => WatchEventKind::Delete,
        WatchEventKind::BufferOverflow => WatchEventKind::BufferOverflow,
        WatchEventKind::HistoryUnavailable => WatchEventKind::HistoryUnavailable,
    };
    WatchEventDto {
        kind,
        kvs: wit_kvs(&ev.kvs),
        prev_kv: wit_opt_kv(&ev.prev_kv),
        revision: ev.revision,
    }
}

// ---- requests ----

/// Bytes of an optional request id.
pub open spec fn request_id_bytes(id: Option<String>) -> Seq<u8> {
    match id {
        Some(s) => encode_utf8(s@),
        None => Seq::empty(),
    }
}

/// Bytes of an optional request id.
pub fn request_id_of(id: Option<String>) -> (r: Vec<u8>)
    ensures
        r@ == request_id_bytes(id),
{
    match id {
        Some(s) => vstd::slice::slice_to_vec(s.as_str().as_bytes()),
        None => {
            let none: Vec<u8> = Vec::new();
            assert(none@ =~= Seq::<u8>::empty());
            none
        },
    }
}

/// The write that a component asks for.
pub fn put_of(
    key: Vec<u8>,
    value: Vec<u8>,
    lease_id: i64,
    prev_kv: bool,
    request_id: Option<String>,
) -> (r: KvPut)
    ensures
        r@ == (KvPutView {
            key: key@,
            value: value@,
            lease_id,
            prev_kv,
            request_id: request_id_bytes(request_id),
        }),
{
    KvPut { key, value, lease_id, prev_kv, request_id: request_id_of(request_id) }
}

/// The delete that a component asks for; it has no request id.
pub fn delete_of(key: Vec<u8>, range_end: Vec<u8>, prev_kv: bool) -> (r: KvDelete)
    ensures
        r@ == (KvDeleteView {
            key: key@,
            range_end: range_end@,
            prev_kv,
            request_id: Seq::empty(),
        }),
{
    let request_id: Vec<u8> = Vec::new();
    assert(request_id@ =~= Seq::<u8>::empty());
    KvDelete { key, range_end, prev_kv, request_id }
}

/// A lease as a component sees it.
#[derive(Debug, Clone, Copy, PartialEq, Eq, Structural)]
pub struct WitLease {
    pub id: i64,
    pub ttl: i64,
}

/// What a component sees of a granted lease: its id, and the time to live that was asked for.
pub fn wit_lease(ttl: i64, granted: SdkResult<i64>) -> (r: Result<WitLease, HostError>)
    ensures
        match (granted, r) {
            (Ok(id), Ok(lease)) => lease == (WitLease { id, ttl }),
            (Err(e), Err(f)) => f@ == host_error(e@),
            _ => false,
        },
{
    match granted {
        Ok(id) => Ok(WitLease { id, ttl }),
        Err(e) => Err(wit_err(&e)),
    }
}

/// The limits of a component, as it sees them.
#[derive(Debug, Clone, Copy, PartialEq, Eq, Structural)]
pub struct WitLimits {
    pub max_exec_ms: u64,
    pub max_memory_mb: u64,
    pub max_objects: u64,
}

/// The limits of a component, as it sees them.
pub fn limits_of(limits: &PluginLimits) -> (r: WitLimits)
    ensures
        r.max_exec_ms == limits.max_exec_ms,
        r.max_memory_mb == limits.max_memory_mb,
        r.max_objects == limits.max_objects,
{
    WitLimits {
        max_exec_ms: limits.max_exec_ms,
        max_memory_mb: limits.max_memory_mb as u64,
        max_objects: limits.max_objects as u64,
    }
}

/// A condition of a transaction.
#[derive(Debug)]
pub struct WitCompare {
    pub op: CompareOp,
    pub target: CompareTarget,
    pub key: Vec<u8>,
    pub int_value: i64,
    pub bytes_value: Vec<u8>,
}

/// An operation of a transaction branch.
#[derive(Debug)]
pub enum WitOp {
    Put { key: Vec<u8>, value: Vec<u8>, lease_id: i64, prev_kv: bool },
    Delete { key: Vec<u8>, range_end: Vec<u8>, prev_kv: bool },
    Range {
        key: Vec<u8>,
        range_end: Vec<u8>,
        limit: i64,
        revision: i64,
        keys_only: bool,
        count_only: bool,
    },
}

/// A transaction.
#[derive(Debug)]
pub struct WitTxn {
    pub compares: Vec<WitCompare>,
    pub success: Vec<WitOp>,
    pub failure: Vec<WitOp>,
    pub request_id: Option<String>,
}

/// The comparison that a component names.
pub fn op_from_wit(op: CompareOp) -> (r: CompareOp)
    ensures
        r == op,
{
    match op {
        CompareOp::Equal => CompareOp::Equal,
        CompareOp::NotEqual => CompareOp::NotEqual,
        CompareOp::Greater => CompareOp::Greater,
        CompareOp::Less => CompareOp::Less,
    }
}

/// The target that a component names.
pub fn target_from_wit(t: CompareTarget) -> (r: CompareTarget)
    ensures
        r == t,
{
    match t {
        CompareTarget::Version => CompareTarget::Version,
        CompareTarget::Value => CompareTarget::Value,
        CompareTarget::ModRevision => CompareTarget::ModRevision,
    }
}

/// The condition that a component names.
pub open spec fn compare_view(c: WitCompare) -> CompareView {
    CompareView {
        op: c.op,
        target: c.target,
        key: c.key@,
        int_value: c.int_value,
        bytes_value: c.bytes_value@,
    }
}

/// The operation that a component names; operations of a transaction carry no request id.
pub open spec fn op_view(op: WitOp) -> TxnOpView {
    match op {
        WitOp::Put { key, value, lease_id, prev_kv } => TxnOpView::Put(
            KvPutView {
                key: key@,
                value: value@,
                lease_id,
                prev_kv,
                request_id: Seq::empty(),
            },
        ),
        WitOp::Delete { key, range_end, prev_kv } => TxnOpView::Delete(
            KvDeleteView {
                key: key@,
                range_end: range_end@,
                prev_kv,
                request_id: Seq::empty(),
            },
        ),
        WitOp::Range { key, range_end, limit, revision, keys_only, count_only } => TxnOpView::Range(
            KvRangeView {
                key: key@,
                range_end: range_end@,
                limit,
                revision,
                keys_only,
                count_only,
            },
        ),
    }
}

/// The operation that a component names.
pub fn txn_op_from_wit(op: &WitOp) -> (r: TxnOp)
    ensures
        r@ == op_view(*op),
{
    let none: Vec<u8> = Vec::new();
    assert(none@ =~= Seq::<u8>::empty());
    match op {
        WitOp::Put { key, value, lease_id, prev_kv } => TxnOp::Put(
            KvPut {
                key: key.clone(),
                value: value.clone(),
                lease_id: *lease_id,
                prev_kv: *prev_kv,
                request_id: none,
            },
        ),
        WitOp::Delete { key, range_end, prev_kv } => TxnOp::Delete(
            KvDelete {
                key: key.clone(),
                range_end: range_end.clone(),
                prev_kv: *prev_kv,
                request_id: none,
            },
        ),
        WitOp::Range { key, range_end, limit, revision, keys_only, count_only } => TxnOp::Range(
            KvRange {
                key: key.clone(),
                range_end: range_end.clone(),
                limit: *limit,
                revision: *revision,
                keys_only: *keys_only,
                count_only: *count_only,
            },
        ),
    }
}

fn ops_from_wit(ops: &Vec<WitOp>) -> (r: Vec<TxnOp>)
    ensures
        backend::views(r@) == Seq::new(ops@.len(), |i: int| op_view(ops@[i])),
{
    let mut out: Vec<TxnOp> = Vec::new();
    let mut i: usize = 0;
    while i < ops.len()
        invariant
            i <= ops@.len(),
            out@.len() == i,
            forall|k: int| 0 <= k < i ==> (#[trigger] out@[k])@ == op_view(ops@[k]),
        decreases ops@.len() - i,
    {
        out.push(txn_op_from_wit(&ops[i]));
        i += 1;
    }
    assert(backend::views(out@) =~= Seq::new(ops@.len(), |i: int| op_view(ops@[i])));
    out
}

/// The transaction that a component asks for: every condition and operation at its place.
pub fn txn_from_wit(txn: WitTxn) -> (r: TxnReq)
    ensures
        r@.compares == Seq::new(txn.compares@.len(), |i: int| compare_view(txn.compares@[i])),
        r@.success == Seq::new(txn.success@.len(), |i: int| op_view(txn.success@[i])),
        r@.failure == Seq::new(txn.failure@.len(), |i: int| op_view(txn.failure@[i])),
        r@.request_id == request_id_bytes(txn.request_id),
{
    let mut compares: Vec<Compare> = Vec::new();
    let mut i: usize = 0;
    while i < txn.compares.len()
        invariant
            i <= txn.compares@.len(),
            compares@.len() == i,
            forall|k: int|
                0 <= k < i ==> (#[trigger] compares@[k])@ == compare_view(txn.compares@[k]),
        decreases txn.compares@.len() - i,
    {
        let c = &txn.compares[i];
        compares.push(
            Compare {
                op: op_from_wit(c.op),
                target: target_from_wit(c.target),
                key: c.key.clone(),
                int_value: c.int_value,
                bytes_value: c.bytes_value.clone(),
            },
        );
        i += 1;
    }
    let success = ops_from_wit(&txn.success);
    let failure = ops_from_wit(&txn.failure);
    let r = TxnReq { compares, success, failure, request_id: request_id_of(txn.request_id) };
    assert(r@.compares =~= Seq::new(
        txn.compares@.len(),
        |i: int| compare_view(txn.compares@[i]),
    ));
    r
}

/// The failure of a look-up in the environment.
pub open spec fn env_missing_text(key: Seq<char>) -> Seq<char> {
    "env '"@ + key + "' is not set"@
}

/// What the environment holds under a name.
pub fn env_of(env: &crate::name_map::NameMap<String>, key: &str) -> (r: Result<String, HostError>)
    ensures
        match r {
            Ok(v) => env@.dom().contains(key@) && v@ == env@[key@]@,
            Err(e) => !env@.dom().contains(key@) && e@ == (HostErrorView {
                code: SdkErrorCode::NotFound,
                message: env_missing_text(key@),
            }),
        },
{
    match env.get(key) {
        Some(v) => Ok(v.clone()),
        None => Err(HostError::NotFound(crate::text::join3("env '", key, "' is not set"))),
    }
}

} // verus!
