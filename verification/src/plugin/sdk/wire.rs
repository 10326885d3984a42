//! Messages of the coordination protocol, and how plugin requests become messages.
use crate::plugin::sdk::backend;
use crate::plugin::sdk::backend::{
    Compare, CompareOp, CompareTarget, CompareView, KvDeleteOut, KvDeleteOutView, KvPutOut,
    KvPutOutView, KvRangeOut, KvRangeOutView, KvRecord, KvRecordView, ObjectStatDto, TxnOp,
    TxnOpOut, TxnOpOutView, TxnOpView, TxnOut, TxnReq, WatchEventDto, WatchEventDtoView,
    WatchEventKind,
};
use vstd::prelude::*;

verus! {

/// A stored key with its value and history.
#[derive(Debug)]
pub struct KeyValue {
    pub key: Vec<u8>,
    pub value: Vec<u8>,
    pub create_revision: i64,
    pub mod_revision: i64,
    pub version: i64,
    pub lease_id: i64,
}

/// Contents of [`KeyValue`].
pub struct KeyValueView {
    pub key: Seq<u8>,
    pub value: Seq<u8>,
    pub create_revision: i64,
    pub mod_revision: i64,
    pub version: i64,
    pub lease_id: i64,
}

impl View for KeyValue {
    type V = KeyValueView;

    open spec fn view(&self) -> KeyValueView {
        KeyValueView {
            key: self.key@,
            value: self.value@,
            create_revision: self.create_revision,
            mod_revision: self.mod_revision,
            version: self.version,
            lease_id: self.lease_id,
        }
    }
}

/// How a compare compares.
#[derive(Debug, Clone, Copy, PartialEq, Eq, Structural)]
pub enum CompareResult {
    Equal,
    Greater,
    Less,
    NotEqual,
}

/// What a compare looks at.
#[derive(Debug, Clone, Copy, PartialEq, Eq, Structural)]
pub enum Target {
    Version,
    Value,
    ModRev,
}

/// Operand of a compare.
#[derive(Debug)]
pub enum TargetValue {
    Value(Vec<u8>),
    Version(i64),
    ModRevision(i64),
}

/// Contents of [`TargetValue`].
pub enum TargetValueView {
    Value(Seq<u8>),
    Version(i64),
    ModRevision(i64),
}

impl View for TargetValue {
    type V = TargetValueView;

    open spec fn view(&self) -> TargetValueView {
        match *self {
            TargetValue::Value(v) => TargetValueView::Value(v@),
            TargetValue::Version(n) => TargetValueView::Version(n),
            TargetValue::ModRevision(n) => TargetValueView::ModRevision(n),
        }
    }
}

/// A condition of a transaction.
#[derive(Debug)]
pub struct WireCompare {
    pub result: CompareResult,
    pub target: Target,
    pub key: Vec<u8>,
    pub target_value: Option<TargetValue>,
}

/// Contents of [`WireCompare`].
pub struct WireCompareView {
    pub result: CompareResult,
    pub target: Target,
    pub key: Seq<u8>,
    pub target_value: Option<TargetValueView>,
}

impl View for WireCompare {
    type V = WireCompareView;

    open spec fn view(&self) -> WireCompareView {
        WireCompareView {
            result: self.result,
            target: self.target,
            key: self.key@,
            target_value: backend::opt_view(self.target_value),
        }
    }
}

/// A write.
#[derive(Debug)]
pub struct PutRequest {
    pub key: Vec<u8>,
    pub value: Vec<u8>,
    pub lease_id: i64,
    pub prev_kv: bool,
    pub request_id: Vec<u8>,
}

/// Contents of [`PutRequest`].
pub struct PutRequestView {
    pub key: Seq<u8>,
    pub value: Seq<u8>,
    pub lease_id: i64,
    pub prev_kv: bool,
    pub request_id: Seq<u8>,
}

impl View for PutRequest {
    type V = PutRequestView;

    open spec fn view(&self) -> PutRequestView {
        PutRequestView {
            key: self.key@,
            value: self.value@,
            lease_id: self.lease_id,
            prev_kv: self.prev_kv,
            request_id: self.request_id@,
        }
    }
}

/// A read.
#[derive(Debug)]
pub struct RangeRequest {
    pub key: Vec<u8>,
    pub range_end: Vec<u8>,
    pub limit: i64,
    pub revision: i64,
    pub keys_only: bool,
    pub count_only: bool,
}

/// Contents of [`RangeRequest`].
pub struct RangeRequestView {
    pub key: Seq<u8>,
    pub range_end: Seq<u8>,
    pub limit: i64,
    pub revision: i64,
    pub keys_only: bool,
    pub count_only: bool,
}

impl View for RangeRequest {
    type V = RangeRequestView;

    open spec fn view(&self) -> RangeRequestView {
        RangeRequestView {
            key: self.key@,
            range_end: self.range_end@,
            limit: self.limit,
            revision: self.revision,
            keys_only: self.keys_only,
            count_only: self.count_only,
        }
    }
}

/// A delete.
#[derive(Debug)]
pub struct DeleteRequest {
    pub key: Vec<u8>,
    pub range_end: Vec<u8>,
    pub prev_kv: bool,
    pub request_id: Vec<u8>,
}

/// Contents of [`DeleteRequest`].
pub struct DeleteRequestView {
    pub key: Seq<u8>,
    pub range_end: Seq<u8>,
    pub prev_kv: bool,
    pub request_id: Seq<u8>,
}

impl View for DeleteRequest {
    type V = DeleteRequestView;

    open spec fn view(&self) -> DeleteRequestView {
        DeleteRequestView {
            key: self.key@,
            range_end: self.range_end@,
            prev_kv: self.prev_kv,
            request_id: self.request_id@,
        }
    }
}

/// An operation of a transaction branch.
#[derive(Debug)]
pub enum RequestOp {
    RequestPut(PutRequest),
    RequestRange(RangeRequest),
    RequestDelete(DeleteRequest),
}

/// Contents of [`RequestOp`].
pub enum RequestOpView {
    RequestPut(PutRequestView),
    RequestRange(RangeRequestView),
    RequestDelete(DeleteRequestView),
}

impl View for RequestOp {
    type V = RequestOpView;

    open spec fn view(&self) -> RequestOpView {
        match *self {
            RequestOp::RequestPut(x) => RequestOpView::RequestPut(x@),
            RequestOp::RequestRange(x) => RequestOpView::RequestRange(x@),
            RequestOp::RequestDelete(x) => RequestOpView::RequestDelete(x@),
        }
    }
}

/// Answer to a write.
#[derive(Debug)]
pub struct PutResponse {
    pub prev_kv: Option<KeyValue>,
    pub revision: i64,
}

/// Contents of [`PutResponse`].
pub struct PutResponseView {
    pub prev_kv: Option<KeyValueView>,
    pub revision: i64,
}

impl View for PutResponse {
    type V = PutResponseView;

    open spec fn view(&self) -> PutResponseView {
        PutResponseView {
            prev_kv: backend::opt_view(self.prev_kv),
            revision: self.revision,
        }
    }
}

/// Answer to a read.
#[derive(Debug)]
pub struct RangeResponse {
    pub kvs: Vec<KeyValue>,
    pub count: i64,
    pub revision: i64,
}

/// Contents of [`RangeResponse`].
pub struct RangeResponseView {
    pub kvs: Seq<KeyValueView>,
    pub count: i64,
    pub revision: i64,
}

impl View for RangeResponse {
    type V = RangeResponseView;

    open spec fn view(&self) -> RangeResponseView {
        RangeResponseView {
            kvs: backend::views(self.kvs@),
            count: self.count,
            revision: self.revision,
        }
    }
}

/// Answer to a delete.
#[derive(Debug)]
pub struct DeleteResponse {
    pub deleted: i64,
    pub prev_kvs: Vec<KeyValue>,
    pub revision: i64,
}

/// Contents of [`DeleteResponse`].
pub struct DeleteResponseView {
    pub deleted: i64,
    pub prev_kvs: Seq<KeyValueView>,
    pub revision: i64,
}

impl View for DeleteResponse {
    type V = DeleteResponseView;

    open spec fn view(&self) -> DeleteResponseView {
        DeleteResponseView {
            deleted: self.deleted,
            prev_kvs: backend::views(self.prev_kvs@),
            revision: self.revision,
        }
    }
}

/// Answer to an operation.
#[derive(Debug)]
pub enum ResponseOp {
    ResponsePut(PutResponse),
    ResponseRange(RangeResponse),
    ResponseDelete(DeleteResponse),
}

/// Contents of [`ResponseOp`].
pub enum ResponseOpView {
    ResponsePut(PutResponseView),
    ResponseRange(RangeResponseView),
    ResponseDelete(DeleteResponseView),
}

impl View for ResponseOp {
    type V = ResponseOpView;

    open spec fn view(&self) -> ResponseOpView {
        match *self {
            ResponseOp::ResponsePut(x) => ResponseOpView::ResponsePut(x@),
            ResponseOp::ResponseRange(x) => ResponseOpView::ResponseRange(x@),
            ResponseOp::ResponseDelete(x) => ResponseOpView::ResponseDelete(x@),
        }
    }
}

/// A change.
#[derive(Debug)]
pub struct WatchEvent {
    /// Kind of the change; nothing where the code on the wire is unknown.
    pub kind: Option<WatchEventKind>,
    pub kvs: Vec<KeyValue>,
    pub prev_kv: Option<KeyValue>,
    pub revision: i64,
}

/// Contents of [`WatchEvent`].
pub struct WatchEventView {
    pub kind: Option<WatchEventKind>,
    pub kvs: Seq<KeyValueView>,
    pub prev_kv: Option<KeyValueView>,
    pub revision: i64,
}

impl View for WatchEvent {
    type V = WatchEventView;

    open spec fn view(&self) -> WatchEventView {
        WatchEventView {
            kind: self.kind,
            kvs: backend::views(self.kvs@),
            prev_kv: backend::opt_view(self.prev_kv),
            revision: self.revision,
        }
    }
}

/// What the store knows of an object.
#[derive(Debug)]
pub struct ObjectStat {
    pub bucket: String,
    pub object_id: Vec<u8>,
    pub size: i64,
    pub chunks: i64,
    pub revision: i64,
    pub exists: bool,
    pub committed: bool,
}

/// What a plugin sees of an object.
pub fn stat_from_proto(stat: ObjectStat) -> (r: ObjectStatDto)
    ensures
        r.bucket == stat.bucket,
        r.object_id == stat.object_id,
        r.size == stat.size,
        r.chunks == stat.chunks,
        r.revision == stat.revision,
        r.exists == stat.exists,
        r.committed == stat.committed,
{
    ObjectStatDto {
        bucket: stat.bucket,
        object_id: stat.object_id,
        size: stat.size,
        chunks: stat.chunks,
        revision: stat.revision,
        exists: stat.exists,
        committed: stat.committed,
    }
}

// ---- plugin requests to messages ----

/// The message of a condition.
pub open spec fn wire_compare(c: CompareView) -> WireCompareView {
    WireCompareView {
        result: match c.op {
            CompareOp::Equal => CompareResult::Equal,
            CompareOp::Greater => CompareResult::Greater,
            CompareOp::Less => CompareResult::Less,
            CompareOp::NotEqual => CompareResult::NotEqual,
        },
        target: match c.target {
            CompareTarget::Version => Target::Version,
            CompareTarget::Value => Target::Value,
            CompareTarget::ModRevision => Target::ModRev,
        },
        key: c.key,
        target_value: Some(
            match c.target {
                CompareTarget::Value => TargetValueView::Value(c.bytes_value),
                CompareTarget::Version => TargetValueView::Version(c.int_value),
                CompareTarget::ModRevision => TargetValueView::ModRevision(c.int_value),
            },
        ),
    }
}

/// The message of a condition: the operand is the one that its target calls for.
pub fn to_proto_compare(c: &Compare) -> (r: WireCompare)
    ensures
        r@ == wire_compare(c@),
{
    let result = match c.op {
        CompareOp::Equal => CompareResult::Equal,
        CompareOp::Greater => CompareResult::Greater,
        CompareOp::Less => CompareResult::Less,
        CompareOp::NotEqual => CompareResult::NotEqual,
    };
    let target = match c.target {
        CompareTarget::Version => Target::Version,
        CompareTarget::Value => Target::Value,
        CompareTarget::ModRevision => Target::ModRev,
    };
    let target_value = match c.target {
        CompareTarget::Value => Some(TargetValue::Value(c.bytes_value.clone())),
        CompareTarget::Version => Some(TargetValue::Version(c.int_value)),
        CompareTarget::ModRevision => Some(TargetValue::ModRevision(c.int_value)),
    };
    WireCompare { result, target, key: c.key.clone(), target_value }
}

/// The message of an operation.
pub open spec fn wire_op(op: TxnOpView) -> RequestOpView {
    match op {
        TxnOpView::Put(p) => RequestOpView::RequestPut(
            PutRequestView {
                key: p.key,
                value: p.value,
                lease_id: p.lease_id,
                prev_kv: p.prev_kv,
                request_id: p.request_id,
            },
        ),
        TxnOpView::Range(r) => RequestOpView::RequestRange(
            RangeRequestView {
                key: r.key,
                range_end: r.range_end,
                limit: r.limit,
                revision: r.revision,
                keys_only: r.keys_only,
                count_only: r.count_only,
            },
        ),
        TxnOpView::Delete(d) => RequestOpView::RequestDelete(
            DeleteRequestView {
                key: d.key,
                range_end: d.range_end,
                prev_kv: d.prev_kv,
                request_id: d.request_id,
            },
        ),
    }
}

/// The message of an operation.
pub fn to_proto_op(op: &TxnOp) -> (r: RequestOp)
    ensures
        r@ == wire_op(op@),
{
    match op {
        TxnOp::Put(p) => RequestOp::RequestPut(
            PutRequest {
                key: p.key.clone(),
                value: p.value.clone(),
                lease_id: p.lease_id,
                prev_kv: p.prev_kv,
                request_id: p.request_id.clone(),
            },
        ),
        TxnOp::Range(r) => RequestOp::RequestRange(
            RangeRequest {
                key: r.key.clone(),
                range_end: r.range_end.clone(),
                limit: r.limit,
                revision: r.revision,
                keys_only: r.keys_only,
                count_only: r.count_only,
            },
        ),
        TxnOp::Delete(d) => RequestOp::RequestDelete(
            DeleteRequest {
                key: d.key.clone(),
                range_end: d.range_end.clone(),
                prev_kv: d.prev_kv,
                request_id: d.request_id.clone(),
            },
        ),
    }
}

// ---- messages to plugin answers ----

/// What a plugin sees of a stored key.
pub open spec fn record_of(kv: KeyValueView) -> KvRecordView {
    KvRecordView { key: kv.key, value: kv.value, lease_id: kv.lease_id, version: kv.version }
}

/// What a plugin sees of stored keys.
pub open spec fn records_of(kvs: Seq<KeyValueView>) -> Seq<KvRecordView> {
    Seq::new(kvs.len(), |i: int| record_of(kvs[i]))
}

/// What a plugin sees of an optional stored key.
pub open spec fn opt_record_of(kv: Option<KeyValueView>) -> Option<KvRecordView> {
    match kv {
        Some(k) => Some(record_of(k)),
        None => None,
    }
}

/// What a plugin sees of a stored key.
pub fn proto_kv_to_record(kv: KeyValue) -> (r: KvRecord)
    ensures
        r@ == record_of(kv@),
{
    KvRecord { key: kv.key, value: kv.value, lease_id: kv.lease_id, version: kv.version }
}

/// Row of a read: key, value, lease and version.
pub type KvRow = (Vec<u8>, Vec<u8>, i64, i64);

/// What a plugin sees of a row.
pub open spec fn row_record(row: KvRow) -> KvRecordView {
    KvRecordView { key: row.0@, value: row.1@, lease_id: row.2, version: row.3 }
}

/// What a plugin sees of rows.
pub open spec fn row_records(rows: Seq<KvRow>) -> Seq<KvRecordView> {
    Seq::new(rows.len(), |i: int| row_record(rows[i]))
}

/// What a plugin sees of a row.
pub fn record_from(row: KvRow) -> (r: KvRecord)
    ensures
        r@ == row_record(row),
{
    let (key, value, lease_id, version) = row;
    KvRecord { key, value, lease_id, version }
}

/// What a plugin sees of rows.
pub fn records_from(rows: Vec<KvRow>) -> (r: Vec<KvRecord>)
    ensures
        backend::views(r@) == row_records(rows@),
{
    let ghost all = rows@;
    let mut left = rows;
    let mut out: Vec<KvRecord> = Vec::new();
    let ghost mut done: int = 0;
    assert(left@ =~= all.skip(0));
    assert(backend::views(out@) =~= row_records(all).take(0));
    while left.len() > 0
        invariant
            0 <= done <= all.len(),
            left@ == all.skip(done),
            backend::views(out@) == row_records(all).take(done),
        decreases left@.len(),
    {
        let ghost before = out@;
        assert(left@.len() == all.len() - done);
        assert(left@[0] == all[done]);
        let first = left.remove(0);
        assert(left@ =~= all.skip(done + 1));
        out.push(record_from(first));
        assert(backend::views(out@) =~= backend::views(before).push(row_records(all)[done]));
        assert(row_records(all).take(done + 1) =~= row_records(all).take(done).push(
            row_records(all)[done],
        ));
        proof {
            done = done + 1;
        }
    }
    assert(left@.len() == all.len() - done);
    assert(row_records(all).take(done) =~= row_records(all));
    out
}

fn proto_kvs_to_records(kvs: Vec<KeyValue>) -> (r: Vec<KvRecord>)
    ensures
        backend::views(r@) == records_of(backend::views(kvs@)),
{
    let ghost all = records_of(backend::views(kvs@));
    let mut left = kvs;
    let mut out: Vec<KvRecord> = Vec::new();
    let ghost mut done: int = 0;
    assert(backend::views(out@) =~= all.take(0));
    assert(records_of(backend::views(left@)) =~= all.skip(0));
    while left.len() > 0
        invariant
            0 <= done <= all.len(),
            records_of(backend::views(left@)) == all.skip(done),
            backend::views(out@) == all.take(done),
        decreases left@.len(),
    {
        let ghost waiting = left@;
        let ghost before = out@;
        assert(records_of(backend::views(waiting)).len() == waiting.len());
        assert(all.skip(done).len() == all.len() - done);
        assert(records_of(backend::views(waiting))[0] == all.skip(done)[0]);
        let first = left.remove(0);
        assert forall|k: int| 0 <= k < left@.len() implies records_of(backend::views(left@))[k]
            == all.skip(done + 1)[k] by {
            assert(records_of(backend::views(waiting))[k + 1] == all.skip(done)[k + 1]);
        }
        assert(records_of(backend::views(left@)) =~= all.skip(done + 1));
        out.push(proto_kv_to_record(first));
        assert(backend::views(out@) =~= backend::views(before).push(all[done]));
        assert(all.take(done + 1) =~= all.take(done).push(all[done]));
        proof {
            done = done + 1;
        }
    }
    assert(records_of(backend::views(left@)).len() == 0);
    assert(all.skip(done).len() == all.len() - done);
    assert(all.take(done) =~= all);
    out
}

fn opt_proto_kv_to_record(kv: Option<KeyValue>) -> (r: Option<KvRecord>)
    ensures
        backend::opt_view(r) == opt_record_of(backend::opt_view(kv)),
{
    match kv {
        Some(k) => Some(proto_kv_to_record(k)),
        None => None,
    }
}

/// What a plugin sees of an answer.
pub open spec fn op_out_of(op: ResponseOpView) -> TxnOpOutView {
    match op {
        ResponseOpView::ResponsePut(p) => TxnOpOutView::Put(
            KvPutOutView { prev_kv: opt_record_of(p.prev_kv), revision: p.revision },
        ),
        ResponseOpView::ResponseRange(r) => TxnOpOutView::Range(
            KvRangeOutView { kvs: records_of(r.kvs), count: r.count, revision: r.revision },
        ),
        ResponseOpView::ResponseDelete(d) => TxnOpOutView::Delete(
            KvDeleteOutView {
                deleted: d.deleted,
                prev_kvs: records_of(d.prev_kvs),
                revision: d.revision,
            },
        ),
    }
}

/// What a plugin sees of an answer; a message without an answer is left out.
pub fn from_proto_response(op: Option<ResponseOp>) -> (r: Option<TxnOpOut>)
    ensures
        match op {
            None => r is None,
            Some(o) => r matches Some(out) && out@ == op_out_of(o@),
        },
{
    match op {
        None => None,
        Some(ResponseOp::ResponsePut(p)) => Some(
            TxnOpOut::Put(
                KvPutOut { prev_kv: opt_proto_kv_to_record(p.prev_kv), revision: p.revision },
            ),
        ),
        Some(ResponseOp::ResponseRange(r)) => Some(
            TxnOpOut::Range(
                KvRangeOut {
                    kvs: proto_kvs_to_records(r.kvs),
                    count: r.count,
                    revision: r.revision,
                },
            ),
        ),
        Some(ResponseOp::ResponseDelete(d)) => Some(
            TxnOpOut::Delete(
                KvDeleteOut {
                    deleted: d.deleted,
                    prev_kvs: proto_kvs_to_records(d.prev_kvs),
                    revision: d.revision,
                },
            ),
        ),
    }
}

/// What a plugin sees of a change; a change of an unknown kind reads as a write.
pub open spec fn event_view(event: WatchEvent) -> WatchEventDtoView {
    WatchEventDtoView {
        kind: match event.kind {
            Some(k) => k,
            None => WatchEventKind::Put,
        },
        kvs: records_of(event@.kvs),
        prev_kv: opt_record_of(event@.prev_kv),
        revision: event.revision,
    }
}

/// What a plugin sees of a change.
pub fn watch_event_to_dto(event: WatchEvent) -> (r: WatchEventDto)
    ensures
        r@ == event_view(event),
{
    let kind = match event.kind {
        Some(k) => k,
        None => WatchEventKind::Put,
    };
    WatchEventDto {
        kind,
        kvs: proto_kvs_to_records(event.kvs),
        prev_kv: opt_proto_kv_to_record(event.prev_kv),
        revision: event.revision,
    }
}

/// The messages of a transaction.
pub fn txn_messages(req: &TxnReq) -> (r: (Vec<WireCompare>, Vec<RequestOp>, Vec<RequestOp>))
    ensures
        backend::views(r.0@) == Seq::new(req@.compares.len(), |i: int| wire_compare(req@.compares[i])),
        backend::views(r.1@) == Seq::new(req@.success.len(), |i: int| wire_op(req@.success[i])),
        backend::views(r.2@) == Seq::new(req@.failure.len(), |i: int| wire_op(req@.failure[i])),
{
    let mut compares: Vec<WireCompare> = Vec::new();
    let mut i: usize = 0;
    while i < req.compares.len()
        invariant
            i <= req.compares@.len(),
            compares@.len() == i,
            forall|k: int| 0 <= k < i ==> (#[trigger] compares@[k])@ == wire_compare(req.compares@[k]@),
        decreases req.compares@.len() - i,
    {
        compares.push(to_proto_compare(&req.compares[i]));
        i += 1;
    }
    assert(backend::views(compares@) =~= Seq::new(
        req@.compares.len(),
        |i: int| wire_compare(req@.compares[i]),
    ));
    (compares, op_messages(&req.success), op_messages(&req.failure))
}

fn op_messages(ops: &Vec<TxnOp>) -> (r: Vec<RequestOp>)
    ensures
        backend::views(r@) == Seq::new(ops@.len(), |i: int| wire_op(ops@[i]@)),
{
    let mut out: Vec<RequestOp> = Vec::new();
    let mut i: usize = 0;
    while i < ops.len()
        invariant
            i <= ops@.len(),
            out@.len() == i,
            forall|k: int| 0 <= k < i ==> (#[trigger] out@[k])@ == wire_op(ops@[k]@),
        decreases ops@.len() - i,
    {
        out.push(to_proto_op(&ops[i]));
        i += 1;
    }
    assert(backend::views(out@) =~= Seq::new(ops@.len(), |i: int| wire_op(ops@[i]@)));
    out
}

/// The answers among messages, in order.
pub open spec fn answers_among(ops: Seq<Option<ResponseOp>>) -> Seq<TxnOpOutView>
    decreases ops.len(),
{
    if ops.len() == 0 {
        Seq::empty()
    } else {
        let rest = answers_among(ops.drop_last());
        match ops.last() {
            Some(o) => rest.push(op_out_of(o@)),
            None => rest,
        }
    }
}

/// What a plugin sees of the answer to a transaction: messages without an answer are left out.
pub fn txn_outcome(succeeded: bool, revision: i64, responses: Vec<Option<ResponseOp>>) -> (r: TxnOut)
    ensures
        r.succeeded == succeeded,
        r.revision == revision,
        r@.responses == answers_among(responses@),
{
    let ghost all = responses@;
    let mut left = responses;
    let mut out: Vec<TxnOpOut> = Vec::new();
    let ghost mut done: int = 0;
    assert(backend::views(out@) =~= answers_among(all.take(0)));
    assert(left@ =~= all.skip(0));
    while left.len() > 0
        invariant
            0 <= done <= all.len(),
            left@ == all.skip(done),
            backend::views(out@) == answers_among(all.take(done)),
        decreases left@.len(),
    {
        let ghost before = out@;
        assert(left@.len() == all.len() - done);
        assert(left@[0] == all[done]);
        assert(all.take(done + 1).drop_last() =~= all.take(done));
        assert(all.take(done + 1).last() == all[done]);
        let first = left.remove(0);
        assert(left@ =~= all.skip(done + 1));
        if let Some(answer) = from_proto_response(first) {
            out.push(answer);
            assert(backend::views(out@) =~= backend::views(before).push(answer@));
        }
        proof {
            done = done + 1;
        }
    }
    assert(left@.len() == all.len() - done);
    assert(all.take(done) =~= all);
    TxnOut { succeeded, revision, responses: out }
}

/// A transaction keeps its shape on the wire: every condition and operation stands at its place
/// with its key.
pub proof fn law_messages_keep_keys(c: CompareView, op: TxnOpView)
    ensures
        wire_compare(c).key == c.key,
        match (op, wire_op(op)) {
            (TxnOpView::Put(a), RequestOpView::RequestPut(b)) => a.key == b.key && a.value == b.value,
            (TxnOpView::Range(a), RequestOpView::RequestRange(b)) => a.key == b.key && a.range_end
                == b.range_end,
            (TxnOpView::Delete(a), RequestOpView::RequestDelete(b)) => a.key == b.key
                && a.range_end == b.range_end,
            _ => false,
        },
{
}

} // verus!
