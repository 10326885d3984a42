//! What the proxied calls amount to: what reaches the cluster of a request, and what of its answer
//! reaches the caller.
use crate::core_error::{CoordErrorCode, CoreError, CoreErrorKind};
use crate::counters::Count;
use crate::plugin::sdk::backend::{KvRange, ObjectPutOut};
use crate::plugin::sdk::coord;
use crate::plugin::sdk::wire::{
    DeleteRequest, DeleteResponse, KvRow, ObjectStat, PutRequest, PutResponse, RangeRequest,
    RangeResponse, RequestOp, WatchEvent, WireCompare,
};
use crate::proxy::error::ProxyError;
use crate::proxy::kv;
use crate::proxy::kv::{
    cache_fills, cached_answer, cluster_read, deleted_read_limit, may_use_cache, range_answer,
    txn_answer, txn_invalidations, DeleteRun, DeleteStep, LeaseRow, PutRun, PutStep, TxnAnswer,
};
use crate::proxy::storage;
use crate::proxy::storage::{
    check_storage, delete_object_answer, put_object_answer, replay, stat_answer, upload_room,
    PutMeta, PutPart, Upload,
};
use crate::proxy::streams::{
    keep_alive_answer, lease_answer, maintenance_route, open_watch, revoke_answer, FirstFrame,
    LeaseGrant, MaintenanceCall, MaintenanceRoute, WatchForward, WatchOpening, WatchTask,
};
use crate::status::StatusCode;
use crate::text;
use vstd::prelude::*;

verus! {

// ---- failures ----

/// Whether a failure that a caller gets keeps the meaning of the cluster's: what was not found,
/// denied, unauthenticated, invalid or there already stays so, with the text that says it; a node
/// that is not the leader and a cluster that cannot be reached are unavailable; what there is no
/// word for is internal. Each comes with a structured code.
pub open spec fn tells(r: ProxyError, e: CoreError) -> bool {
    &&& r.code is Some
    &&& e.kind matches CoreErrorKind::NotFound { key } ==> r.status.code is NotFound
        && r.status.message@ == key@ && r.code->0 is NotFound
    &&& e.kind matches CoreErrorKind::AlreadyExists { key } ==> r.status.code is AlreadyExists
        && r.status.message@ == key@ && r.code->0 is AlreadyExists
    &&& e.kind matches CoreErrorKind::LeaseNotFound { lease_id } ==> r.status.code is NotFound
        && r.status.message@ == "lease "@ + text::decimal_int(lease_id as int) + " not found"@
        && r.code->0 is NotFound
    &&& e.kind matches CoreErrorKind::ClusterUnavailable(m) ==> r.status.code is Unavailable
        && r.status.message@ == m@ && r.code->0 is Unavailable
    &&& e.kind matches CoreErrorKind::PermissionDenied(m) ==> r.status.code is PermissionDenied
        && r.status.message@ == m@ && r.code->0 is PermissionDenied
    &&& e.kind matches CoreErrorKind::Unauthenticated(m) ==> r.status.code is Unauthenticated
        && r.status.message@ == m@ && r.code->0 is Unauthenticated
    &&& e.kind matches CoreErrorKind::InvalidArgument(m) ==> r.status.code is InvalidArgument
        && r.status.message@ == m@ && r.code->0 is InvalidArgument
    &&& e.kind is NotLeader || e.kind is NotLeaderNoHint ==> r.status.code is Unavailable
        && r.status.message@ == "not leader"@ && r.code->0 is NotLeader
    &&& e.kind is RequestTimeout ==> r.status.code is DeadlineExceeded && r.status.message@
        == "request timeout"@ && r.code->0 is DeadlineExceeded
    &&& e.kind is TxnCompareFailed ==> r.status.code is Aborted && r.status.message@
        == "txn compare failed"@ && r.code->0 is TxnCasFailed
    &&& e.kind is RevisionCompacted || e.kind is ClusterSealed || e.kind is ClusterUnsealing
        ==> r.status.code is FailedPrecondition && r.status.message@ == e.text@
        && r.code->0 is FailedPrecondition
    &&& e.kind is LeaseTtlOutOfRange ==> r.status.code is OutOfRange && r.status.message@ == e.text@
        && r.code->0 is OutOfRange
    &&& e.kind is WatchTooManyConnections || e.kind is Backpressure
        ==> r.status.code is ResourceExhausted && r.status.message@ == e.text@
        && r.code->0 is ResourceExhausted
    &&& e.kind is TxnTooLarge || e.kind is Storage || e.kind is Other ==> r.status.code is Internal
        && r.status.message@ == e.text@ && r.code->0 is Internal
}

/// A failure of the cluster keeps its meaning on its way to the caller.
pub proof fn law_failures_keep_their_meaning(e: CoreError, r: ProxyError)
    requires
        call_ensures(ProxyError::of_cluster, (&e,), r),
    ensures
        tells(r, e),
{
}

/// Whether a failure is a refusal by the proxy itself, which has no structured code.
pub open spec fn refuses(r: ProxyError, code: StatusCode, message: Seq<char>) -> bool {
    r.status.code == code && r.status.message@ == message && r.code is None
}

// ---- reads ----

/// The answer to a read has as many keys as the cluster gave rows, in their order, each with the
/// key, the lease and the version of its row, and with its value unless only keys were asked for.
/// Count and revision are those of the cluster. Where there is no cluster the answer is empty, and
/// a failure is told.
pub proof fn law_a_read_answers_every_row(
    req: RangeRequest,
    read: Option<Result<(Vec<KvRow>, i64, i64), CoreError>>,
    r: Result<RangeResponse, ProxyError>,
)
    requires
        call_ensures(range_answer, (&req, read), r),
    ensures
        read matches Some(Ok((rows, count, revision))) ==> {
            &&& r matches Ok(answer) && answer.count == count && answer.revision == revision
                && answer.kvs@.len() == rows@.len() && forall|i: int|
                0 <= i < rows@.len() ==> {
                    let kv = #[trigger] answer.kvs@[i];
                    let row = rows@[i];
                    &&& kv.key@ == row.0@
                    &&& req.keys_only ==> kv.value@.len() == 0
                    &&& !req.keys_only ==> kv.value@ == row.1@
                    &&& kv.lease_id == row.2
                    &&& kv.version == row.3
                }
        },
        read matches Some(Err(e)) ==> (r matches Err(f) && tells(f, e)),
        read is None ==> (r matches Ok(answer) && answer.kvs@.len() == 0 && answer.count == 0
            && answer.revision == 0),
{
    if let Ok(answer) = r {
        assert(answer@.kvs.len() == answer.kvs@.len());
        if let Some(Ok((rows, count, revision))) = read {
            assert forall|i: int| 0 <= i < rows@.len() implies {
                let kv = #[trigger] answer.kvs@[i];
                let row = rows@[i];
                &&& kv.key@ == row.0@
                &&& req.keys_only ==> kv.value@.len() == 0
                &&& !req.keys_only ==> kv.value@ == row.1@
                &&& kv.lease_id == row.2
                &&& kv.version == row.3
            } by {
                assert(answer@.kvs[i] == answer.kvs@[i]@);
            }
        }
    }
}

/// A read reaches the cluster as it came.
pub proof fn law_a_read_is_passed_on_as_it_came(req: RangeRequest, read: KvRange)
    requires
        call_ensures(cluster_read, (&req,), read),
    ensures
        read.key@ == req.key@,
        read.range_end@ == req.range_end@,
        read.limit == req.limit,
        read.revision == req.revision,
        read.keys_only == req.keys_only,
        read.count_only == req.count_only,
{
}

/// The cache answers exactly where there is a cluster, the cache is switched on and holds the
/// key, and the latest value of a single key is asked for; the answer is that key alone, with the
/// cached value unless only keys were asked for.
pub proof fn law_the_cache_answers_for_one_key(
    connected: bool,
    enabled: bool,
    req: RangeRequest,
    value: Option<Vec<u8>>,
    r: Option<RangeResponse>,
)
    requires
        call_ensures(cached_answer, (connected, enabled, &req, value), r),
    ensures
        r is Some <==> connected && enabled && value is Some && !req.count_only
            && req.range_end@.len() == 0 && req.revision == 0,
        r matches Some(answer) ==> {
            &&& answer.kvs@.len() == 1
            &&& answer.kvs@[0].key@ == req.key@
            &&& req.keys_only ==> answer.kvs@[0].value@.len() == 0
            &&& !req.keys_only ==> answer.kvs@[0].value@ == (value->0)@
            &&& answer.kvs@[0].version == 0
            &&& answer.kvs@[0].lease_id == 0
            &&& answer.kvs@[0].create_revision == 0
            &&& answer.kvs@[0].mod_revision == 0
            &&& answer.count == 1
            &&& answer.revision == 0
        },
{
    if let Some(answer) = r {
        assert(answer@.kvs.len() == answer.kvs@.len());
        assert(answer@.kvs[0] == answer.kvs@[0]@);
    }
}

proof fn lemma_fills(kvs: Seq<crate::plugin::sdk::wire::KeyValueView>, key: Seq<u8>, value: Seq<u8>)
    ensures
        kv::fills_of(kvs).contains((key, value)) <==> value.len() > 0 && exists|i: int|
            0 <= i < kvs.len() && (#[trigger] kvs[i]).key == key && kvs[i].value == value,
    decreases kvs.len(),
{
    if kvs.len() > 0 {
        let init = kvs.drop_last();
        let rest = kv::fills_of(init);
        let all = kv::fills_of(kvs);
        lemma_fills(init, key, value);
        if kvs.last().value.len() > 0 {
            text::lemma_push_contains(rest, (kvs.last().key, kvs.last().value), (key, value));
        }
        if exists|i: int| 0 <= i < init.len() && (#[trigger] init[i]).key == key && init[i].value
            == value {
            let i = choose|i: int|
                0 <= i < init.len() && (#[trigger] init[i]).key == key && init[i].value == value;
            assert(kvs[i].key == key && kvs[i].value == value);
        }
        if value.len() > 0 && exists|i: int|
            0 <= i < kvs.len() && (#[trigger] kvs[i]).key == key && kvs[i].value == value {
            let i = choose|i: int|
                0 <= i < kvs.len() && (#[trigger] kvs[i]).key == key && kvs[i].value == value;
            if i < init.len() {
                assert(init[i].key == key && init[i].value == value);
            }
        }
        if all.contains((key, value)) && !rest.contains((key, value)) {
            assert(kvs[kvs.len() - 1].key == key && kvs[kvs.len() - 1].value == value);
        }
    }
}

/// A read of the latest value of a single key fills the cache with the values that came, none of
/// them empty; any other read fills it with nothing.
pub proof fn law_reads_of_one_key_fill_the_cache(
    req: RangeRequest,
    answer: RangeResponse,
    fills: Vec<(Vec<u8>, Vec<u8>)>,
    key: Seq<u8>,
    value: Seq<u8>,
)
    requires
        call_ensures(cache_fills, (&req, &answer), fills),
    ensures
        (exists|k: int|
            0 <= k < fills@.len() && (#[trigger] fills@[k]).0@ == key && fills@[k].1@ == value) <==> {
            &&& !req.keys_only
            &&& !req.count_only
            &&& req.range_end@.len() == 0
            &&& req.revision == 0
            &&& value.len() > 0
            &&& exists|i: int|
                0 <= i < answer.kvs@.len() && (#[trigger] answer.kvs@[i]).key@ == key
                    && answer.kvs@[i].value@ == value
        },
{
    let kvs = answer@.kvs;
    let pairs = kv::pair_views(fills@);
    assert(kvs.len() == answer.kvs@.len());
    assert(pairs.len() == fills@.len());
    lemma_fills(kvs, key, value);
    if exists|k: int|
        0 <= k < fills@.len() && (#[trigger] fills@[k]).0@ == key && fills@[k].1@ == value {
        let k = choose|k: int|
            0 <= k < fills@.len() && (#[trigger] fills@[k]).0@ == key && fills@[k].1@ == value;
        assert(pairs[k] == (key, value));
        assert(pairs.contains((key, value)));
        let i = choose|i: int|
            0 <= i < kvs.len() && (#[trigger] kvs[i]).key == key && kvs[i].value == value;
        assert(kvs[i] == answer.kvs@[i]@);
        assert(answer.kvs@[i].key@ == key);
    }
    if !req.keys_only && !req.count_only && req.range_end@.len() == 0 && req.revision == 0
        && value.len() > 0 && exists|i: int|
        0 <= i < answer.kvs@.len() && (#[trigger] answer.kvs@[i]).key@ == key
            && answer.kvs@[i].value@ == value {
        let i = choose|i: int|
            0 <= i < answer.kvs@.len() && (#[trigger] answer.kvs@[i]).key@ == key
                && answer.kvs@[i].value@ == value;
        assert(kvs[i] == answer.kvs@[i]@);
        assert(kvs[i].key == key && kvs[i].value == value);
        let k = choose|k: int| 0 <= k < pairs.len() && pairs[k] == (key, value);
        assert(fills@[k].0@ == key && fills@[k].1@ == value);
    }
}

// ---- writes ----

/// Whether a step writes what the request says.
pub open spec fn writes(step: PutStep, req: PutRequest) -> bool {
    step matches PutStep::Write(w) && w.key@ == req.key@ && w.value@ == req.value@ && w.lease_id
        == req.lease_id && !w.prev_kv && w.request_id@ == req.request_id@
}

/// A write of which no earlier value is wanted: it is written as it came, then the cache is told
/// of its key, and it is answered with the revision that the cluster gave. A failure ends it, the
/// cache untold, and is what is answered.
pub proof fn law_a_write_reaches_cluster_and_cache(
    req: PutRequest,
    begun: PutRun,
    first: PutStep,
    written: Result<u64, CoreError>,
    told: PutRun,
    second: PutStep,
    end: PutRun,
    third: PutStep,
    answer: Result<PutResponse, ProxyError>,
)
    requires
        !req.prev_kv,
        call_ensures(PutRun::new, (true, &req), begun),
        call_ensures(PutRun::step, (&begun, &req), first),
        call_ensures(PutRun::written, (begun, written), told),
        call_ensures(PutRun::step, (&told, &req), second),
        call_ensures(PutRun::invalidated, (told,), end),
        call_ensures(PutRun::step, (&end, &req), third),
        call_ensures(PutRun::into_answer, (end,), answer),
    ensures
        writes(first, req),
        written is Ok ==> (second matches PutStep::Invalidate(key) && key@ == req.key@),
        written is Err ==> second is Answer,
        third is Answer,
        written matches Ok(n) ==> (answer matches Ok(a) && a.prev_kv is None && a.revision == n as i64),
        written matches Err(e) ==> (answer matches Err(f) && tells(f, e)),
{
}

/// A write of which the earlier value is wanted: the latest value of the key is read first, with
/// its lease, and then it is written as it came. It is answered with the row that was found, where
/// there was one. A failed read ends it before anything is written.
pub proof fn law_a_write_reads_what_it_replaces(
    req: PutRequest,
    begun: PutRun,
    first: PutStep,
    rows: Result<Vec<LeaseRow>, CoreError>,
    ready: PutRun,
    second: PutStep,
    written: Result<u64, CoreError>,
    told: PutRun,
    third: PutStep,
    end: PutRun,
    answer: Result<PutResponse, ProxyError>,
)
    requires
        req.prev_kv,
        call_ensures(PutRun::new, (true, &req), begun),
        call_ensures(PutRun::step, (&begun, &req), first),
        call_ensures(PutRun::read, (begun, rows), ready),
        call_ensures(PutRun::step, (&ready, &req), second),
        call_ensures(PutRun::written, (ready, written), told),
        call_ensures(PutRun::step, (&told, &req), third),
        call_ensures(PutRun::invalidated, (told,), end),
        call_ensures(PutRun::into_answer, (end,), answer),
    ensures
        first matches PutStep::Read(read) && read.key@ == req.key@ && read.range_end@.len() == 0
            && read.limit == 1 && read.revision == 0 && !read.keys_only && !read.count_only,
        rows is Ok ==> writes(second, req),
        rows matches Err(e) ==> second is Answer && third is Answer && (answer matches Err(f) && tells(
            f,
            e,
        )),
        rows is Ok && written is Ok ==> (third matches PutStep::Invalidate(key) && key@ == req.key@),
        rows is Ok && written is Err ==> third is Answer && (answer matches Err(f) && tells(
            f,
            written->Err_0,
        )),
        rows is Ok && written is Ok ==> (answer matches Ok(a) && a.revision == (
        written->Ok_0) as i64 && if rows->Ok_0@.len() == 0 {
            a.prev_kv is None
        } else {
            a.prev_kv matches Some(kv) && kv.key@ == rows->Ok_0@[0].0@ && kv.value@
                == rows->Ok_0@[0].1@ && kv.lease_id == rows->Ok_0@[0].2
        }),
{
}

/// Without a cluster a write is answered at once, as if it had made the first revision, and
/// nothing is asked for.
pub proof fn law_a_write_without_a_cluster_is_answered(
    req: PutRequest,
    run: PutRun,
    step: PutStep,
    answer: Result<PutResponse, ProxyError>,
)
    requires
        call_ensures(PutRun::new, (false, &req), run),
        call_ensures(PutRun::step, (&run, &req), step),
        call_ensures(PutRun::into_answer, (run,), answer),
    ensures
        step is Answer,
        answer matches Ok(a) && a.prev_kv is None && a.revision == 1,
{
}

// ---- deletes ----

/// Whether a step deletes what the request says.
pub open spec fn deletes(step: DeleteStep, req: DeleteRequest) -> bool {
    step matches DeleteStep::Delete(d) && d.key@ == req.key@ && d.range_end@ == req.range_end@
        && !d.prev_kv && d.request_id@ == req.request_id@
}

/// A delete of which no earlier values are wanted: the cache is told of its key, then the cluster
/// is asked for it as it came, and it is answered with what the cluster gave.
pub proof fn law_a_delete_reaches_cache_and_cluster(
    req: DeleteRequest,
    begun: DeleteRun,
    first: DeleteStep,
    told: DeleteRun,
    second: DeleteStep,
    deleted: Result<(i64, i64), CoreError>,
    end: DeleteRun,
    third: DeleteStep,
    answer: Result<DeleteResponse, ProxyError>,
)
    requires
        !req.prev_kv,
        call_ensures(DeleteRun::new, (true, &req), begun),
        call_ensures(DeleteRun::step, (&begun, &req), first),
        call_ensures(DeleteRun::invalidated, (begun,), told),
        call_ensures(DeleteRun::step, (&told, &req), second),
        call_ensures(DeleteRun::deleted, (told, deleted), end),
        call_ensures(DeleteRun::step, (&end, &req), third),
        call_ensures(DeleteRun::into_answer, (end,), answer),
    ensures
        first matches DeleteStep::Invalidate(key) && key@ == req.key@,
        deletes(second, req),
        third is Answer,
        deleted matches Ok((count, revision)) ==> (answer matches Ok(a) && a.deleted == count
            && a.revision == revision && a.prev_kvs@.len() == 0),
        deleted matches Err(e) ==> (answer matches Err(f) && tells(f, e)),
{
    if let Ok(a) = answer {
        assert(a@.prev_kvs.len() == a.prev_kvs@.len());
    }
}

/// A delete of which the earlier values are wanted: they are read first, one for a single key and
/// all for a range, and it is answered with every row that was found, in order. A failed read ends
/// it before the cache or the cluster hears of it.
pub proof fn law_a_delete_reads_what_goes(
    req: DeleteRequest,
    begun: DeleteRun,
    first: DeleteStep,
    rows: Result<Vec<LeaseRow>, CoreError>,
    ready: DeleteRun,
    second: DeleteStep,
    told: DeleteRun,
    third: DeleteStep,
    deleted: Result<(i64, i64), CoreError>,
    end: DeleteRun,
    answer: Result<DeleteResponse, ProxyError>,
)
    requires
        req.prev_kv,
        call_ensures(DeleteRun::new, (true, &req), begun),
        call_ensures(DeleteRun::step, (&begun, &req), first),
        call_ensures(DeleteRun::read, (begun, rows), ready),
        call_ensures(DeleteRun::step, (&ready, &req), second),
        call_ensures(DeleteRun::invalidated, (ready,), told),
        call_ensures(DeleteRun::step, (&told, &req), third),
        call_ensures(DeleteRun::deleted, (told, deleted), end),
        call_ensures(DeleteRun::into_answer, (end,), answer),
    ensures
        first matches DeleteStep::Read(read) && read.key@ == req.key@ && read.range_end@
            == req.range_end@ && (req.range_end@.len() == 0 ==> read.limit == 1) && (
        req.range_end@.len() > 0 ==> read.limit == 0) && read.revision == 0 && !read.keys_only
            && !read.count_only,
        rows is Ok ==> (second matches DeleteStep::Invalidate(key) && key@ == req.key@),
        rows is Ok ==> deletes(third, req),
        rows matches Err(e) ==> second is Answer && third is Answer && (answer matches Err(f)
            && tells(f, e)),
        rows is Ok && deleted is Err ==> (answer matches Err(f) && tells(f, deleted->Err_0)),
        rows is Ok && deleted is Ok ==> (answer matches Ok(a) && a.deleted == (deleted->Ok_0).0
            && a.revision == (deleted->Ok_0).1 && a.prev_kvs@.len() == rows->Ok_0@.len() && forall|
            i: int,
        |
            0 <= i < a.prev_kvs@.len() ==> (#[trigger] a.prev_kvs@[i]).key@ == rows->Ok_0@[i].0@
                && a.prev_kvs@[i].value@ == rows->Ok_0@[i].1@ && a.prev_kvs@[i].lease_id
                == rows->Ok_0@[i].2),
{
    if let Ok(a) = answer {
        assert(a@.prev_kvs.len() == a.prev_kvs@.len());
        assert forall|i: int| 0 <= i < a.prev_kvs@.len() implies (#[trigger] a.prev_kvs@[i]).key@
            == rows->Ok_0@[i].0@ && a.prev_kvs@[i].value@ == rows->Ok_0@[i].1@
            && a.prev_kvs@[i].lease_id == rows->Ok_0@[i].2 by {
            assert(a@.prev_kvs[i] == a.prev_kvs@[i]@);
        }
    }
}

/// Without a cluster a delete is answered at once, as of one key, and nothing is asked for.
pub proof fn law_a_delete_without_a_cluster_is_answered(
    req: DeleteRequest,
    run: DeleteRun,
    step: DeleteStep,
    answer: Result<DeleteResponse, ProxyError>,
)
    requires
        call_ensures(DeleteRun::new, (false, &req), run),
        call_ensures(DeleteRun::step, (&run, &req), step),
        call_ensures(DeleteRun::into_answer, (run,), answer),
    ensures
        step is Answer,
        answer matches Ok(a) && a.deleted == 1 && a.revision == 1 && a.prev_kvs@.len() == 0,
{
    if let Ok(a) = answer {
        assert(a@.prev_kvs.len() == a.prev_kvs@.len());
    }
}

// ---- transactions ----

/// Whether a list of keys holds a key.
pub open spec fn lists(keys: Vec<Vec<u8>>, key: Seq<u8>) -> bool {
    exists|i: int| 0 <= i < keys@.len() && (#[trigger] keys@[i])@ == key
}

proof fn lemma_lists(keys: Vec<Vec<u8>>, key: Seq<u8>)
    ensures
        lists(keys, key) == kv::bytes_views(keys@).contains(key),
{
    let all = kv::bytes_views(keys@);
    if lists(keys, key) {
        let i = choose|i: int| 0 <= i < keys@.len() && (#[trigger] keys@[i])@ == key;
        assert(all[i] == key);
    }
    if all.contains(key) {
        let i = choose|i: int| 0 <= i < all.len() && all[i] == key;
        assert(keys@[i]@ == key);
    }
}

/// Before a transaction the cache is told of every key that it compares and of every key that
/// either branch writes or deletes.
pub proof fn law_the_cache_is_told_of_all_keys_of_a_transaction(
    compares: Vec<WireCompare>,
    success: Vec<Option<RequestOp>>,
    failure: Vec<Option<RequestOp>>,
    keys: Vec<Vec<u8>>,
    i: int,
)
    requires
        call_ensures(txn_invalidations, (&compares, &success, &failure), keys),
    ensures
        0 <= i < compares@.len() ==> lists(keys, compares@[i].key@),
        0 <= i < success@.len() ==> (success@[i] matches Some(RequestOp::RequestPut(p)) ==> lists(
            keys,
            p.key@,
        )),
        0 <= i < success@.len() ==> (success@[i] matches Some(RequestOp::RequestDelete(d)) ==> lists(
            keys,
            d.key@,
        )),
        0 <= i < failure@.len() ==> (failure@[i] matches Some(RequestOp::RequestPut(p)) ==> lists(
            keys,
            p.key@,
        )),
        0 <= i < failure@.len() ==> (failure@[i] matches Some(RequestOp::RequestDelete(d)) ==> lists(
            keys,
            d.key@,
        )),
{
    let told = kv::bytes_views(keys@);
    kv::law_transactions_leave_no_stale_key(compares@, success@, failure@);
    if 0 <= i < compares@.len() {
        let key = compares@[i].key@;
        lemma_lists(keys, key);
        assert(told[i] == key);
    }
    if 0 <= i < success@.len() && kv::changed_key(success@[i]) is Some {
        lemma_lists(keys, kv::changed_key(success@[i])->0);
    }
    if 0 <= i < failure@.len() && kv::changed_key(failure@[i]) is Some {
        lemma_lists(keys, kv::changed_key(failure@[i])->0);
    }
}

/// A transaction is answered with what the cluster answered. Without a cluster it did not succeed,
/// and a failure is told.
pub proof fn law_a_transaction_answers_as_the_cluster(
    given: Option<Result<TxnAnswer, CoreError>>,
    r: Result<TxnAnswer, ProxyError>,
)
    requires
        call_ensures(txn_answer, (given,), r),
    ensures
        given matches Some(Ok(a)) ==> r == Ok::<TxnAnswer, ProxyError>(a),
        given matches Some(Err(e)) ==> (r matches Err(f) && tells(f, e)),
        given is None ==> (r matches Ok(a) && !a.0 && a.1 == 0 && a.2@.len() == 0),
{
}

// ---- leases ----

/// A granted lease goes by the number that the cluster gave and lives as long as was asked for.
/// Without a cluster it goes by the number that was asked for, or the first one.
pub proof fn law_leases_are_the_cluster_s(
    ttl: i64,
    id: i64,
    granted: Option<Result<i64, CoreError>>,
    r: Result<LeaseGrant, ProxyError>,
)
    requires
        call_ensures(lease_answer, (ttl, id, granted), r),
    ensures
        granted matches Some(Ok(lease)) ==> (r matches Ok(g) && g.id == lease && g.ttl == ttl),
        granted matches Some(Err(e)) ==> (r matches Err(f) && tells(f, e)),
        granted is None ==> (r matches Ok(g) && g.ttl == ttl && (id != 0 ==> g.id == id) && (id == 0
            ==> g.id == 1)),
{
}

/// A revocation that the cluster carried out clears the cache, since the keys that went with the
/// lease are unknown; no other answer does.
pub proof fn law_revocations_clear_the_cache(
    revoked: Option<Result<(), CoreError>>,
    r: (Result<(), ProxyError>, bool),
)
    requires
        call_ensures(revoke_answer, (revoked,), r),
    ensures
        r.1 <==> (revoked matches Some(Ok(_))),
        revoked matches Some(Err(e)) ==> (r.0 matches Err(f) && tells(f, e)),
        !(revoked matches Some(Err(_))) ==> r.0 is Ok,
{
}

/// A renewed lease keeps its number and lives as long as the cluster says, and the stream goes on;
/// it ends with a failure, which is told, and at once where there is no cluster.
pub proof fn law_renewals_go_on_until_one_fails(
    id: i64,
    renewed: Option<Result<i64, CoreError>>,
    r: (Option<Result<LeaseGrant, ProxyError>>, bool),
)
    requires
        call_ensures(keep_alive_answer, (id, renewed), r),
    ensures
        r.1 <==> (renewed matches Some(Ok(_))),
        renewed matches Some(Ok(ttl)) ==> (r.0 matches Some(Ok(g)) && g.id == id && g.ttl == ttl),
        renewed matches Some(Err(e)) ==> (r.0 matches Some(Err(f)) && tells(f, e)),
        renewed is None ==> r.0 is None,
{
}

// ---- watches ----

/// A stream that does not open with a subscription is no subscription: one that ended has no
/// events, and one that failed or opens with another frame is refused. What the grants do not cover
/// is denied with the reason, whether there is a cluster or not.
pub proof fn law_watches_open_with_a_subscription(
    connected: bool,
    first: FirstFrame,
    scope: Result<(), String>,
    opening: WatchOpening,
)
    requires
        call_ensures(open_watch, (connected, first, scope), opening),
    ensures
        opening is Subscribe ==> first is Create && scope is Ok && connected,
        opening is Idle ==> first is Create && scope is Ok && !connected,
        first is End ==> opening is Empty,
        first is Other ==> (opening matches WatchOpening::Refuse(f) && refuses(
            f,
            StatusCode::InvalidArgument,
            "first watch request must be Create"@,
        )),
        first matches FirstFrame::Failed(e) ==> (opening matches WatchOpening::Refuse(f) && refuses(
            f,
            StatusCode::Internal,
            "watch stream error: "@ + e@,
        )),
        first is Create && scope is Err ==> (opening matches WatchOpening::Refuse(f)
            && f.status.code is PermissionDenied && f.status.message@ == (scope->Err_0)@ && f.code
            == Some(CoordErrorCode::PermissionDenied)),
{
}

/// A subscriber is counted for exactly the streams that are let through.
pub proof fn law_let_through_watches_are_counted(opening: WatchOpening, r: Option<Count>)
    requires
        call_ensures(WatchOpening::count, (&opening,), r),
    ensures
        opening is Subscribe || opening is Idle ==> r == Some(Count::WatchSubscribed),
        opening is Refuse || opening is Empty ==> r is None,
{
}

/// What an open subscription receives is passed on as it is, after the cache was told of the
/// watched prefix. A failure is told and ends the subscription, and so does the end of the stream;
/// then, and only then, a subscriber less is counted. One that ended passes nothing on.
pub proof fn law_events_are_passed_on(
    task: &mut WatchTask,
    received: Option<Result<WatchEvent, CoreError>>,
    r: (WatchForward, Option<Count>),
)
    requires
        call_ensures(WatchTask::forward, (task, received), r),
    ensures
        final(task)@.prefix == old(task)@.prefix,
        old(task)@.open ==> {
            &&& received matches Some(Ok(event)) ==> final(task)@.open && r.1 is None && (r.0 matches
                WatchForward::Deliver { stale, event: passed } && stale@ == old(task)@.prefix
                && passed == event)
            &&& received matches Some(Err(e)) ==> !final(task)@.open && r.1 == Some(
                Count::WatchUnsubscribed,
            ) && (r.0 matches WatchForward::Fail(f) && tells(f, e))
            &&& received is None ==> !final(task)@.open && r.1 == Some(Count::WatchUnsubscribed)
                && r.0 is End
        },
        !old(task)@.open ==> !final(task)@.open && r.0 is End && r.1 is None,
{
}

/// A subscription begins open, on its prefix, and ends when its subscriber leaves; that is counted
/// once.
pub proof fn law_watches_end_with_their_subscriber(
    prefix: Vec<u8>,
    begun: WatchTask,
    task: &mut WatchTask,
    r: Option<Count>,
)
    requires
        call_ensures(WatchTask::new, (prefix,), begun),
        call_ensures(WatchTask::leave, (task,), r),
    ensures
        begun@.open,
        begun@.prefix == prefix@,
        !final(task)@.open,
        r == if old(task)@.open {
            Some(Count::WatchUnsubscribed)
        } else {
            None
        },
{
}

// ---- maintenance ----

/// The cluster seals, unseals, tells its status and lists its members. Without a cluster the
/// status is a placeholder of nothing, and the others are refused. A snapshot is always an empty
/// stream, and whatever changes the members or the history is always refused.
pub proof fn law_maintenance_goes_to_the_cluster_or_is_refused(
    connected: bool,
    call: MaintenanceCall,
    r: MaintenanceRoute,
)
    requires
        call_ensures(maintenance_route, (connected, call), r),
    ensures
        r is Forward <==> connected && (call is Seal || call is Unseal || call is Status
            || call is MemberList),
        !connected && call is Status ==> (r matches MaintenanceRoute::Placeholder(s) && s.revision == 0
            && s.raft_index == 0 && s.raft_term == 0 && s.raft_leader@.len() == 0 && s.seal_status@
            == "unsealed"@),
        call is Snapshot ==> r is Empty,
        call is Compact || call is MemberAdd || call is Join || call is MemberRemove
            || call is MemberPromote || (!connected && (call is Seal || call is Unseal
            || call is MemberList)) ==> (r matches MaintenanceRoute::Refuse(f)
            && f.status.code is Unimplemented && f.code is None),
        r matches MaintenanceRoute::Refuse(f) ==> {
            &&& call is Seal ==> f.status.message@ == "seal proxy not yet implemented"@
            &&& call is Unseal ==> f.status.message@ == "unseal proxy not yet implemented"@
            &&& call is Compact ==> f.status.message@ == "compact not available via agent proxy"@
            &&& call is MemberAdd ==> f.status.message@ == "member_add proxy not yet implemented"@
            &&& call is Join ==> f.status.message@ == "join not available via agent proxy"@
            &&& call is MemberRemove ==> f.status.message@ == "member_remove proxy not yet implemented"@
            &&& call is MemberPromote ==> f.status.message@ == "member_promote proxy not yet implemented"@
            &&& call is MemberList ==> f.status.message@ == "member_list proxy not yet implemented"@
        },
{
}

// ---- objects ----

/// Objects can be reached exactly where there is a cluster.
pub proof fn law_objects_take_a_cluster(connected: bool, r: Result<(), ProxyError>)
    requires
        call_ensures(check_storage, (connected,), r),
    ensures
        connected ==> r is Ok,
        !connected ==> (r matches Err(f) && refuses(
            f,
            StatusCode::FailedPrecondition,
            "object storage proxy unavailable: agent not connected to a cluster"@,
        )),
{
}

/// An upload begins with what it says of its object, whose bucket has a name.
pub proof fn law_uploads_begin_with_their_object(first: Option<PutPart>, r: Result<Upload, ProxyError>)
    requires
        call_ensures(Upload::begin, (first,), r),
    ensures
        r is Ok <==> (first matches Some(PutPart::Meta(meta)) && meta.bucket@.len() > 0),
        r matches Ok(u) ==> first == Some(PutPart::Meta(u.about())) && u.bytes().len() == 0,
        r matches Err(f) ==> f.status.code is InvalidArgument,
{
}

/// A chunk of an upload is added to its bytes, as long as they stay within 256 MiB; any other
/// message is refused.
pub proof fn law_uploads_grow_by_their_chunks(upload: Upload, part: PutPart, r: Result<Upload, ProxyError>)
    requires
        call_ensures(Upload::collect, (upload, part), r),
    ensures
        r is Ok <==> (part matches PutPart::Chunk(c) && upload.bytes().len() + c@.len() <= 256 * 1024
            * 1024),
        r matches Ok(u) ==> u.about() == upload.about() && u.bytes() == upload.bytes()
            + part->Chunk_0@,
        r matches Err(f) ==> if part is Chunk {
            f.status.code is ResourceExhausted
        } else {
            f.status.code is InvalidArgument
        },
{
}

/// What an upload collected is what is handed on, and an upload of nothing is refused.
pub proof fn law_uploads_are_handed_on_whole(upload: Upload, r: Result<(PutMeta, Vec<u8>), ProxyError>)
    requires
        call_ensures(Upload::finish, (upload,), r),
    ensures
        r is Ok <==> upload.bytes().len() > 0,
        r matches Ok((meta, data)) ==> meta == upload.about() && data@ == upload.bytes(),
        r matches Err(f) ==> f.status.code is InvalidArgument,
{
}

/// A finished upload is answered with revision, size and number of chunks as the cluster gave them.
pub proof fn law_uploads_answer_as_the_cluster(
    revision: u64,
    size: u64,
    chunks: u64,
    done: Result<ObjectPutOut, ProxyError>,
    e: CoreError,
    failed: Result<ObjectPutOut, ProxyError>,
)
    requires
        revision <= i64::MAX,
        size <= i64::MAX,
        chunks <= i64::MAX,
        call_ensures(
            put_object_answer,
            (Ok::<(u64, u64, u64), CoreError>((revision, size, chunks)),),
            done,
        ),
        call_ensures(put_object_answer, (Err::<(u64, u64, u64), CoreError>(e),), failed),
    ensures
        done matches Ok(out) && out.revision == revision && out.size == size && out.chunks == chunks,
        failed matches Err(f) && tells(f, e),
{
}

/// The bytes of parts in a row.
pub open spec fn joined(parts: Seq<Vec<u8>>) -> Seq<u8>
    decreases parts.len(),
{
    if parts.len() == 0 {
        Seq::empty()
    } else {
        joined(parts.drop_last()) + parts.last()@
    }
}

proof fn lemma_joined(parts: Seq<Vec<u8>>)
    ensures
        joined(parts) == coord::concatenated(kv::bytes_views(parts)),
    decreases parts.len(),
{
    let views = kv::bytes_views(parts);
    if parts.len() > 0 {
        lemma_joined(parts.drop_last());
        assert(kv::bytes_views(parts.drop_last()) =~= views.drop_last());
    }
}

/// The parts of a replayed object in a row are its bytes; none is empty, and none is larger than
/// 4 MiB.
pub proof fn law_downloads_give_back_the_object(data: Vec<u8>, parts: Vec<Vec<u8>>)
    requires
        call_ensures(replay, (data,), parts),
    ensures
        joined(parts@) == data@,
        forall|i: int|
            0 <= i < parts@.len() ==> 0 < (#[trigger] parts@[i])@.len() <= 4 * 1024 * 1024,
{
    storage::law_replay_gives_back_the_object(data@);
    lemma_joined(parts@);
    let views = kv::bytes_views(parts@);
    assert forall|i: int| 0 <= i < parts@.len() implies 0 < (#[trigger] parts@[i])@.len() <= 4 * 1024
        * 1024 by {
        assert(views[i] == parts@[i]@);
    }
}

/// What is known of an object is answered as it is; one that is not there is not found.
pub proof fn law_objects_are_told_of_as_they_are(
    bucket: &str,
    object_id: &[u8],
    found: Result<Option<ObjectStat>, CoreError>,
    r: Result<ObjectStat, ProxyError>,
)
    requires
        call_ensures(stat_answer, (bucket, object_id, found), r),
    ensures
        found matches Ok(Some(stat)) ==> r == Ok::<ObjectStat, ProxyError>(stat),
        found matches Ok(None) ==> (r matches Err(f) && refuses(
            f,
            StatusCode::NotFound,
            "object "@ + bucket@ + "/"@ + text::utf8_lossy(object_id@) + " not found"@,
        )),
        found matches Err(e) ==> (r matches Err(f) && tells(f, e)),
{
}

/// A removal is answered with whether there was an object, and with the revision.
pub proof fn law_removals_answer_as_the_cluster(
    deleted: bool,
    revision: u64,
    done: Result<(bool, i64), ProxyError>,
    e: CoreError,
    failed: Result<(bool, i64), ProxyError>,
)
    requires
        revision <= i64::MAX,
        call_ensures(delete_object_answer, (Ok::<(bool, u64), CoreError>((deleted, revision)),), done),
        call_ensures(delete_object_answer, (Err::<(bool, u64), CoreError>(e),), failed),
    ensures
        done matches Ok(a) && a.0 == deleted && a.1 == revision,
        failed matches Err(f) && tells(f, e),
{
}

/// The cache answers for single keys at the latest revision alone; a delete of one key reads one
/// record before it, that of a range all of them; an upload gets as much room as it declares, within
/// the limit.
pub proof fn law_limits_of_reads_and_uploads(
    req: RangeRequest,
    cached: bool,
    del: DeleteRequest,
    limit: i64,
    size: i64,
    room: usize,
)
    requires
        call_ensures(may_use_cache, (&req,), cached),
        call_ensures(deleted_read_limit, (&del,), limit),
        call_ensures(upload_room, (size,), room),
    ensures
        cached <==> !req.count_only && req.range_end@.len() == 0 && req.revision == 0,
        del.range_end@.len() == 0 ==> limit == 1,
        del.range_end@.len() > 0 ==> limit == 0,
        size <= 0 ==> room == 0,
        0 < size <= 256 * 1024 * 1024 ==> room == size,
        size > 256 * 1024 * 1024 ==> room == 256 * 1024 * 1024,
{
}

} // verus!
