//! What of a plugin's requests reaches the cluster, and what of its answers reaches the plugin.
use crate::core_error::{map_core_error, CoreError, CoreErrorKind};
use crate::plugin::sdk::backend;
use crate::plugin::sdk::backend::{
    Compare, KvDelete, KvDeleteOut, KvPut, KvPutOut, KvRange, KvRangeOut, KvRecord,
    ObjectPutOut, ObjectStatDto, SdkError, SdkResult, TxnOp, TxnOpOut, TxnOut, TxnReq,
    WatchEventDto,
};
use crate::plugin::sdk::coord::{
    check_read_length, delete_outcome, deleted_read, previous_read, previous_record, put_outcome,
    range_outcome, upload_length, upload_outcome, watch_outcome, LeaseRevocation, ReadBuffer,
    UploadLength,
};
use crate::plugin::sdk::wire;
use crate::plugin::sdk::wire::{
    from_proto_response, proto_kv_to_record, record_from, records_from, stat_from_proto,
    to_proto_compare, to_proto_op, txn_messages, txn_outcome, watch_event_to_dto, KeyValue,
    KvRow, ObjectStat, RequestOp, ResponseOp, TargetValue, WatchEvent, WireCompare,
};
use vstd::prelude::*;

verus! {

// ---- failures ----

/// Whether a plugin sees a failure for what it is: with the client's text, and in the class that
/// tells what to do about it.
pub open spec fn shows(r: SdkError, e: CoreError) -> bool {
    &&& r.message@ == e.text@
    &&& e.kind is NotFound || e.kind is LeaseNotFound <==> r.code is NotFound
    &&& e.kind is NotLeader || e.kind is NotLeaderNoHint || e.kind is ClusterUnavailable
        || e.kind is RequestTimeout <==> r.code is Unavailable
    &&& e.kind is PermissionDenied || e.kind is Unauthenticated <==> r.code is Forbidden
    &&& e.kind is Backpressure || e.kind is WatchTooManyConnections || e.kind is TxnTooLarge
        <==> r.code is ResourceExhausted
    &&& e.kind is InvalidArgument || e.kind is LeaseTtlOutOfRange <==> r.code is InvalidArgument
    &&& !(r.code is Conflict)
}

/// Plugins see the failures of the client for what they are.
pub proof fn law_plugins_see_failures_for_what_they_are(e: CoreError, r: SdkError)
    requires
        call_ensures(map_core_error, (&e,), r),
    ensures
        shows(r, e),
{
}

// ---- conditions and operations ----

/// Whether a message is that of a condition: it compares the same way, on the same key, with the
/// operand that its target calls for.
pub open spec fn carries_compare(m: WireCompare, c: Compare) -> bool {
    &&& m.key@ == c.key@
    &&& c.op is Equal <==> m.result is Equal
    &&& c.op is NotEqual <==> m.result is NotEqual
    &&& c.op is Greater <==> m.result is Greater
    &&& c.op is Less <==> m.result is Less
    &&& c.target is Version ==> m.target is Version && m.target_value == Some(
        TargetValue::Version(c.int_value),
    )
    &&& c.target is ModRevision ==> m.target is ModRev && m.target_value == Some(
        TargetValue::ModRevision(c.int_value),
    )
    &&& c.target is Value ==> m.target is Value && (m.target_value matches Some(TargetValue::Value(v))
        && v@ == c.bytes_value@)
}

/// Whether a message is that of an operation: nothing of it is changed or lost.
pub open spec fn carries_op(m: RequestOp, op: TxnOp) -> bool {
    &&& op matches TxnOp::Put(p) ==> (m matches RequestOp::RequestPut(q) && q.key@ == p.key@ && q.value@
        == p.value@ && q.lease_id == p.lease_id && q.prev_kv == p.prev_kv && q.request_id@
        == p.request_id@)
    &&& op matches TxnOp::Range(r) ==> (m matches RequestOp::RequestRange(q) && q.key@ == r.key@
        && q.range_end@ == r.range_end@ && q.limit == r.limit && q.revision == r.revision
        && q.keys_only == r.keys_only && q.count_only == r.count_only)
    &&& op matches TxnOp::Delete(d) ==> (m matches RequestOp::RequestDelete(q) && q.key@ == d.key@
        && q.range_end@ == d.range_end@ && q.prev_kv == d.prev_kv && q.request_id@ == d.request_id@)
}

proof fn lemma_carries_compare(m: WireCompare, c: Compare)
    requires
        m@ == wire::wire_compare(c@),
    ensures
        carries_compare(m, c),
{
    assert(m.target_value is Some);
}

/// A condition reaches the cluster as it is.
pub proof fn law_conditions_reach_the_cluster(c: Compare, m: WireCompare)
    requires
        call_ensures(to_proto_compare, (&c,), m),
    ensures
        carries_compare(m, c),
{
    lemma_carries_compare(m, c);
}

/// An operation reaches the cluster as it is.
pub proof fn law_operations_reach_the_cluster(op: TxnOp, m: RequestOp)
    requires
        call_ensures(to_proto_op, (&op,), m),
    ensures
        carries_op(m, op),
{
}

/// A transaction reaches the cluster whole: every condition and every operation of either branch,
/// in its place.
pub proof fn law_transactions_reach_the_cluster_whole(
    req: TxnReq,
    m: (Vec<WireCompare>, Vec<RequestOp>, Vec<RequestOp>),
    i: int,
)
    requires
        call_ensures(txn_messages, (&req,), m),
    ensures
        m.0@.len() == req.compares@.len(),
        m.1@.len() == req.success@.len(),
        m.2@.len() == req.failure@.len(),
        0 <= i < req.compares@.len() ==> carries_compare(m.0@[i], req.compares@[i]),
        0 <= i < req.success@.len() ==> carries_op(m.1@[i], req.success@[i]),
        0 <= i < req.failure@.len() ==> carries_op(m.2@[i], req.failure@[i]),
{
    let compares = backend::views(m.0@);
    let success = backend::views(m.1@);
    let failure = backend::views(m.2@);
    assert(compares.len() == m.0@.len() && req@.compares.len() == req.compares@.len());
    assert(success.len() == m.1@.len() && req@.success.len() == req.success@.len());
    assert(failure.len() == m.2@.len() && req@.failure.len() == req.failure@.len());
    if 0 <= i < req.compares@.len() {
        assert(compares[i] == m.0@[i]@);
        assert(req@.compares[i] == req.compares@[i]@);
        lemma_carries_compare(m.0@[i], req.compares@[i]);
    }
    if 0 <= i < req.success@.len() {
        assert(success[i] == m.1@[i]@);
        assert(req@.success[i] == req.success@[i]@);
    }
    if 0 <= i < req.failure@.len() {
        assert(failure[i] == m.2@[i]@);
        assert(req@.failure[i] == req.failure@[i]@);
    }
}

// ---- answers ----

/// Whether a record is what a stored key shows.
pub open spec fn shows_kv(r: KvRecord, kv: KeyValue) -> bool {
    r.key@ == kv.key@ && r.value@ == kv.value@ && r.lease_id == kv.lease_id && r.version == kv.version
}

/// Whether records are what stored keys show, one for each, in order.
pub open spec fn shows_kvs(r: Seq<KvRecord>, kvs: Seq<KeyValue>) -> bool {
    r.len() == kvs.len() && forall|i: int| 0 <= i < r.len() ==> shows_kv(#[trigger] r[i], kvs[i])
}

/// Whether an optional record is what an optional stored key shows.
pub open spec fn shows_opt(r: Option<KvRecord>, kv: Option<KeyValue>) -> bool {
    match (r, kv) {
        (Some(a), Some(b)) => shows_kv(a, b),
        (None, None) => true,
        _ => false,
    }
}

proof fn lemma_shows_kvs(r: Seq<KvRecord>, kvs: Seq<KeyValue>)
    requires
        backend::views(r) == wire::records_of(backend::views(kvs)),
    ensures
        shows_kvs(r, kvs),
{
    assert(backend::views(r).len() == r.len());
    assert(wire::records_of(backend::views(kvs)).len() == kvs.len());
    assert forall|i: int| 0 <= i < r.len() implies shows_kv(#[trigger] r[i], kvs[i]) by {
        assert(backend::views(r)[i] == r[i]@);
        assert(wire::records_of(backend::views(kvs))[i] == wire::record_of(kvs[i]@));
    }
}

/// Whether an answer is what the cluster's answer to an operation shows.
pub open spec fn shows_response(out: TxnOpOut, op: ResponseOp) -> bool {
    &&& op matches ResponseOp::ResponsePut(p) ==> (out matches TxnOpOut::Put(q) && q.revision
        == p.revision && shows_opt(q.prev_kv, p.prev_kv))
    &&& op matches ResponseOp::ResponseRange(r) ==> (out matches TxnOpOut::Range(q) && q.count
        == r.count && q.revision == r.revision && shows_kvs(q.kvs@, r.kvs@))
    &&& op matches ResponseOp::ResponseDelete(d) ==> (out matches TxnOpOut::Delete(q) && q.deleted
        == d.deleted && q.revision == d.revision && shows_kvs(q.prev_kvs@, d.prev_kvs@))
}

proof fn lemma_shows_response(out: TxnOpOut, op: ResponseOp)
    requires
        out@ == wire::op_out_of(op@),
    ensures
        shows_response(out, op),
{
    match (out, op) {
        (TxnOpOut::Range(q), ResponseOp::ResponseRange(r)) => {
            lemma_shows_kvs(q.kvs@, r.kvs@);
        },
        (TxnOpOut::Delete(q), ResponseOp::ResponseDelete(d)) => {
            lemma_shows_kvs(q.prev_kvs@, d.prev_kvs@);
        },
        _ => {},
    }
}

/// The answer to an operation reaches the plugin as it is.
pub proof fn law_answers_reach_the_plugin(op: Option<ResponseOp>, r: Option<TxnOpOut>)
    requires
        call_ensures(from_proto_response, (op,), r),
    ensures
        r is Some <==> op is Some,
        op is Some ==> shows_response(r->0, op->0),
{
    if let Some(o) = op {
        lemma_shows_response(r->0, o);
    }
}

proof fn lemma_answers_among(ops: Seq<Option<ResponseOp>>)
    requires
        forall|i: int| 0 <= i < ops.len() ==> #[trigger] ops[i] is Some,
    ensures
        wire::answers_among(ops).len() == ops.len(),
        forall|i: int|
            0 <= i < ops.len() ==> #[trigger] wire::answers_among(ops)[i] == wire::op_out_of(
                (ops[i]->0)@,
            ),
    decreases ops.len(),
{
    if ops.len() > 0 {
        let init = ops.drop_last();
        assert forall|i: int| 0 <= i < init.len() implies #[trigger] init[i] is Some by {
            assert(ops[i] is Some);
        }
        lemma_answers_among(init);
        assert(ops[ops.len() - 1] is Some);
        assert forall|i: int| 0 <= i < ops.len() implies #[trigger] wire::answers_among(ops)[i]
            == wire::op_out_of((ops[i]->0)@) by {
            if i < init.len() {
                assert(wire::answers_among(init)[i] == wire::op_out_of((init[i]->0)@));
            }
        }
    }
}

/// The answer to a transaction reaches the plugin whole: whether it succeeded, the revision, and
/// every answer to its operations, in its place.
pub proof fn law_transaction_answers_reach_the_plugin_whole(
    succeeded: bool,
    revision: i64,
    responses: Vec<Option<ResponseOp>>,
    out: TxnOut,
    i: int,
)
    requires
        call_ensures(txn_outcome, (succeeded, revision, responses), out),
        forall|k: int| 0 <= k < responses@.len() ==> #[trigger] responses@[k] is Some,
    ensures
        out.succeeded == succeeded,
        out.revision == revision,
        out.responses@.len() == responses@.len(),
        0 <= i < responses@.len() ==> shows_response(out.responses@[i], responses@[i]->0),
{
    lemma_answers_among(responses@);
    assert(out@.responses.len() == out.responses@.len());
    if 0 <= i < responses@.len() {
        assert(out@.responses[i] == out.responses@[i]@);
        assert(responses@[i] is Some);
        lemma_shows_response(out.responses@[i], responses@[i]->0);
    }
}

/// A change reaches the plugin as it is; one of an unknown kind reads as a write.
pub proof fn law_changes_reach_the_plugin(event: WatchEvent, r: WatchEventDto)
    requires
        call_ensures(watch_event_to_dto, (event,), r),
    ensures
        event.kind matches Some(kind) ==> r.kind == kind,
        event.kind is None ==> r.kind is Put,
        r.revision == event.revision,
        shows_kvs(r.kvs@, event.kvs@),
        shows_opt(r.prev_kv, event.prev_kv),
{
    lemma_shows_kvs(r.kvs@, event.kvs@);
}

// ---- rows ----

/// Whether a record is what a row of a read shows.
pub open spec fn shows_row(r: KvRecord, row: KvRow) -> bool {
    r.key@ == row.0@ && r.value@ == row.1@ && r.lease_id == row.2 && r.version == row.3
}

proof fn lemma_shows_rows(r: Seq<KvRecord>, rows: Seq<KvRow>)
    requires
        backend::views(r) == wire::row_records(rows),
    ensures
        r.len() == rows.len(),
        forall|i: int| 0 <= i < r.len() ==> shows_row(#[trigger] r[i], rows[i]),
{
    assert(backend::views(r).len() == r.len());
    assert(wire::row_records(rows).len() == rows.len());
    assert forall|i: int| 0 <= i < r.len() implies shows_row(#[trigger] r[i], rows[i]) by {
        assert(backend::views(r)[i] == r[i]@);
        assert(wire::row_records(rows)[i] == wire::row_record(rows[i]));
    }
}

/// Every row of a read reaches the plugin, in order.
pub proof fn law_rows_reach_the_plugin(rows: Vec<KvRow>, r: Vec<KvRecord>)
    requires
        call_ensures(records_from, (rows,), r),
    ensures
        r@.len() == rows@.len(),
        forall|i: int| 0 <= i < r@.len() ==> shows_row(#[trigger] r@[i], rows@[i]),
{
    lemma_shows_rows(r@, rows@);
}

/// A read is answered with every row, in order, and with the count and the revision that came.
pub proof fn law_reads_reach_the_plugin_whole(
    read: Result<(Vec<KvRow>, i64, i64), CoreError>,
    r: SdkResult<KvRangeOut>,
)
    requires
        call_ensures(range_outcome, (read,), r),
    ensures
        read matches Ok((rows, count, revision)) ==> (r matches Ok(out) && out.count == count
            && out.revision == revision && out.kvs@.len() == rows@.len() && forall|i: int|
            0 <= i < rows@.len() ==> shows_row(#[trigger] out.kvs@[i], rows@[i])),
        read matches Err(e) ==> (r matches Err(f) && shows(f, e)),
{
    if let Ok((rows, count, revision)) = read {
        let out = r->Ok_0;
        lemma_shows_rows(out.kvs@, rows@);
    }
}

// ---- writes and deletes that report what was there ----

/// A write that asks for the replaced record has the latest value of its key read before it, and
/// answers with the row that was found, where there was one.
pub proof fn law_writes_report_what_they_replace(
    req: KvPut,
    read: Option<KvRange>,
    rows: Result<Vec<KvRow>, CoreError>,
    prev: SdkResult<Option<KvRecord>>,
)
    requires
        call_ensures(previous_read, (&req,), read),
        call_ensures(previous_record, (rows,), prev),
    ensures
        read is Some <==> req.prev_kv,
        read matches Some(q) ==> q.key@ == req.key@ && q.range_end@.len() == 0 && q.limit == 1
            && q.revision == 0 && !q.keys_only && !q.count_only,
        rows matches Ok(found) ==> (prev matches Ok(record) && if found@.len() == 0 {
            record is None
        } else {
            record matches Some(r) && shows_row(r, found@[0])
        }),
        rows matches Err(e) ==> (prev matches Err(f) && shows(f, e)),
{
}

/// A write is answered with the record read before it and with the revision that it made.
pub proof fn law_writes_answer_with_their_revision(
    prev: Option<KvRecord>,
    written: Result<u64, CoreError>,
    r: SdkResult<KvPutOut>,
)
    requires
        call_ensures(put_outcome, (prev, written), r),
    ensures
        written matches Ok(n) ==> (r matches Ok(out) && out.revision == n as i64 && match (
            prev,
            out.prev_kv,
        ) {
            (Some(a), Some(b)) => b.key@ == a.key@ && b.value@ == a.value@ && b.lease_id == a.lease_id
                && b.version == a.version,
            (None, None) => true,
            _ => false,
        }),
        written matches Err(e) ==> (r matches Err(f) && shows(f, e)),
{
}

/// A delete that asks for the deleted records has all of its keys read before it, and is answered
/// with the records that were read, the number of keys that went and the revision that it made.
pub proof fn law_deletes_report_what_went(
    req: KvDelete,
    read: Option<KvRange>,
    prev: Vec<KvRecord>,
    deleted: Result<(i64, i64), CoreError>,
    r: SdkResult<KvDeleteOut>,
)
    requires
        call_ensures(deleted_read, (&req,), read),
        call_ensures(delete_outcome, (prev, deleted), r),
    ensures
        read is Some <==> req.prev_kv,
        read matches Some(q) ==> q.key@ == req.key@ && q.range_end@ == req.range_end@ && q.limit == 0
            && q.revision == 0 && !q.keys_only && !q.count_only,
        deleted matches Ok((count, revision)) ==> (r matches Ok(out) && out.deleted == count
            && out.revision == revision && out.prev_kvs@.len() == prev@.len() && forall|i: int|
            0 <= i < prev@.len() ==> (#[trigger] out.prev_kvs@[i]).key@ == prev@[i].key@
                && out.prev_kvs@[i].value@ == prev@[i].value@ && out.prev_kvs@[i].lease_id
                == prev@[i].lease_id && out.prev_kvs@[i].version == prev@[i].version),
        deleted matches Err(e) ==> (r matches Err(f) && shows(f, e)),
{
    if let Ok((count, revision)) = deleted {
        let out = r->Ok_0;
        assert(out@.prev_kvs == backend::views(prev@));
        assert(backend::views(out.prev_kvs@).len() == out.prev_kvs@.len());
        assert(backend::views(prev@).len() == prev@.len());
        assert forall|i: int| 0 <= i < prev@.len() implies (#[trigger] out.prev_kvs@[i]).key@
            == prev@[i].key@ && out.prev_kvs@[i].value@ == prev@[i].value@
            && out.prev_kvs@[i].lease_id == prev@[i].lease_id && out.prev_kvs@[i].version
            == prev@[i].version by {
            assert(backend::views(out.prev_kvs@)[i] == out.prev_kvs@[i]@);
            assert(backend::views(prev@)[i] == prev@[i]@);
        }
    }
}

// ---- objects ----

/// A finished upload is answered with what the cluster said of it.
pub proof fn law_uploads_answer_with_what_was_stored(
    revision: u64,
    size: u64,
    chunks: u64,
    done: SdkResult<ObjectPutOut>,
    e: CoreError,
    failed: SdkResult<ObjectPutOut>,
)
    requires
        revision <= i64::MAX,
        size <= i64::MAX,
        chunks <= i64::MAX,
        call_ensures(
            upload_outcome,
            (Ok::<(u64, u64, u64), CoreError>((revision, size, chunks)),),
            done,
        ),
        call_ensures(upload_outcome, (Err::<(u64, u64, u64), CoreError>(e),), failed),
    ensures
        done matches Ok(out) && out.revision == revision && out.size == size && out.chunks == chunks,
        failed matches Err(f) && shows(f, e),
{
}

/// An upload without a declared length has an unknown one.
pub proof fn law_undeclared_lengths_are_unknown(total_size: u64, r: UploadLength)
    requires
        call_ensures(upload_length, (total_size,), r),
    ensures
        total_size == 0 <==> r is Unknown,
        total_size > 0 ==> r == UploadLength::Declared(total_size),
{
}

/// Bytes that wait are handed out before anything is fetched: as many as fit, the rest waits on,
/// and nothing is lost or repeated.
pub proof fn law_waiting_bytes_are_handed_out_first(
    buffer: &mut ReadBuffer,
    max_len: u64,
    r: Option<Vec<u8>>,
)
    requires
        max_len > 0,
        call_ensures(ReadBuffer::take, (buffer, max_len), r),
    ensures
        r is Some <==> old(buffer)@.len() > 0,
        r matches Some(bytes) ==> {
            &&& 0 < bytes@.len() <= max_len
            &&& bytes@ + final(buffer)@ == old(buffer)@
            &&& final(buffer)@.len() > 0 ==> bytes@.len() == max_len
        },
        r is None ==> final(buffer)@ == old(buffer)@,
{
    if let Some(bytes) = r {
        assert(bytes@ + final(buffer)@ =~= old(buffer)@);
    }
}

/// A fetched chunk is handed out as far as it fits, and the rest of it waits; the end of an object
/// is the end, and a failure is shown and changes nothing.
pub proof fn law_fetched_bytes_are_handed_out(
    buffer: &mut ReadBuffer,
    received: Result<Option<Vec<u8>>, CoreError>,
    max_len: u64,
    r: SdkResult<Option<Vec<u8>>>,
)
    requires
        max_len > 0,
        old(buffer)@.len() == 0,
        call_ensures(ReadBuffer::fetched, (buffer, received, max_len), r),
    ensures
        received matches Ok(Some(chunk)) ==> (r matches Ok(Some(bytes)) && bytes@ + final(buffer)@
            == chunk@ && bytes@.len() <= max_len && (final(buffer)@.len() > 0 ==> bytes@.len()
            == max_len)),
        received matches Ok(None) ==> (r matches Ok(None)) && final(buffer)@.len() == 0,
        received matches Err(e) ==> (r matches Err(f) && shows(f, e)) && final(buffer)@.len() == 0,
{
    if let Ok(Some(chunk)) = received {
        let bytes = r->Ok_0->0;
        assert(bytes@ + final(buffer)@ =~= chunk@);
    }
}

/// A read of no bytes is refused.
pub proof fn law_reads_ask_for_something(max_len: u64, r: SdkResult<()>)
    requires
        call_ensures(check_read_length, (max_len,), r),
    ensures
        max_len > 0 ==> r is Ok,
        max_len == 0 ==> (r matches Err(e) && e.code is InvalidArgument),
{
}

// ---- leases and watches ----

/// A revocation is answered as the cluster answered it.
pub proof fn law_revocations_answer_as_the_cluster(
    revocation: LeaseRevocation,
    revoked: Result<(), CoreError>,
    r: SdkResult<()>,
)
    requires
        call_ensures(LeaseRevocation::answer, (revocation, revoked), r),
    ensures
        revoked is Ok <==> r is Ok,
        revoked matches Err(e) ==> (r matches Err(f) && shows(f, e)),
{
}

/// What a subscription received reaches the plugin: a change as it is, and the end of the stream as
/// the end. An overflow of the buffer is exhaustion with its own text, and any other failure is
/// shown.
pub proof fn law_subscriptions_yield_what_they_receive(
    received: Option<Result<WatchEvent, CoreError>>,
    r: SdkResult<Option<WatchEventDto>>,
)
    requires
        call_ensures(watch_outcome, (received,), r),
    ensures
        received is None ==> (r matches Ok(None)),
        received matches Some(Ok(event)) ==> (r matches Ok(Some(seen)) && seen.revision == event.revision
            && (event.kind matches Some(kind) ==> seen.kind == kind) && shows_kvs(
            seen.kvs@,
            event.kvs@,
        ) && shows_opt(seen.prev_kv, event.prev_kv)),
        received matches Some(Err(e)) ==> (r matches Err(f) && match e.kind {
            CoreErrorKind::Backpressure(msg) => f.code is ResourceExhausted && f.message@
                == "watch buffer overflow: "@ + msg@,
            _ => shows(f, e),
        }),
{
    if let Some(Ok(event)) = received {
        let seen = r->Ok_0->0;
        lemma_shows_kvs(seen.kvs@, event.kvs@);
    }
}

/// Records and objects reach plugins as the cluster sent them.
pub proof fn law_records_and_objects_arrive_as_sent(
    kv: KeyValue,
    a: KvRecord,
    row: (Vec<u8>, Vec<u8>, i64, i64),
    b: KvRecord,
    stat: ObjectStat,
    c: ObjectStatDto,
)
    requires
        call_ensures(proto_kv_to_record, (kv,), a),
        call_ensures(record_from, (row,), b),
        call_ensures(stat_from_proto, (stat,), c),
    ensures
        a.key@ == kv.key@ && a.value@ == kv.value@ && a.lease_id == kv.lease_id && a.version == kv.version,
        b.key@ == row.0@ && b.value@ == row.1@ && b.lease_id == row.2 && b.version == row.3,
        c.bucket@ == stat.bucket@ && c.object_id@ == stat.object_id@ && c.size == stat.size && c.chunks
            == stat.chunks && c.revision == stat.revision && c.exists == stat.exists && c.committed
            == stat.committed,
{
}

} // verus!
