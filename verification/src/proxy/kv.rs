//! Reads and writes: when the read cache answers, and when it is told that a value is stale.
use crate::core_error::CoreError;
use crate::plugin::sdk::backend;
use crate::plugin::sdk::backend::{
    KvDelete, KvDeleteView, KvPut, KvPutView, KvRange, KvRangeView,
};
use crate::plugin::sdk::wire::{
    DeleteRequest, DeleteRequestView, DeleteResponse, DeleteResponseView, KeyValue, KeyValueView,
    KvRow, PutRequest, PutRequestView, PutResponse, PutResponseView, RangeRequest,
    RangeRequestView, RangeResponse, RangeResponseView, RequestOp, ResponseOp, WireCompare,
};
use crate::proxy::error;
use crate::proxy::error::{ProxyError, ProxyErrorView};
use vstd::prelude::*;

verus! {

/// Row of a read that precedes a write: key, value and lease.
pub type LeaseRow = (Vec<u8>, Vec<u8>, i64);

/// What is reported of such a row; its history is unknown.
pub open spec fn earlier_kv(row: LeaseRow) -> KeyValueView {
    KeyValueView {
        key: row.0@,
        value: row.1@,
        create_revision: 0,
        mod_revision: 0,
        version: 1,
        lease_id: row.2,
    }
}

fn earlier(row: LeaseRow) -> (r: KeyValue)
    ensures
        r@ == earlier_kv(row),
{
    let (key, value, lease_id) = row;
    KeyValue { key, value, create_revision: 0, mod_revision: 0, version: 1, lease_id }
}

fn earlier_all(rows: Vec<LeaseRow>) -> (r: Vec<KeyValue>)
    ensures
        backend::views(r@) == Seq::new(rows@.len(), |i: int| earlier_kv(rows@[i])),
{
    let ghost all = rows@;
    let ghost want = Seq::new(all.len(), |i: int| earlier_kv(all[i]));
    let mut left = rows;
    let mut out: Vec<KeyValue> = Vec::new();
    let ghost mut done: int = 0;
    assert(left@ =~= all.skip(0));
    assert(backend::views(out@) =~= want.take(0));
    while left.len() > 0
        invariant
            0 <= done <= all.len(),
            want == Seq::new(all.len(), |i: int| earlier_kv(all[i])),
            left@ == all.skip(done),
            backend::views(out@) == want.take(done),
        decreases left@.len(),
    {
        let ghost before = out@;
        assert(left@.len() == all.len() - done);
        assert(left@[0] == all[done]);
        let first = left.remove(0);
        assert(left@ =~= all.skip(done + 1));
        out.push(earlier(first));
        assert(backend::views(out@) =~= backend::views(before).push(want[done]));
        assert(want.take(done + 1) =~= want.take(done).push(want[done]));
        proof {
            done = done + 1;
        }
    }
    assert(left@.len() == all.len() - done);
    assert(want.take(done) =~= want);
    out
}

// ---- writes ----

/// Where a write stands.
#[derive(Debug, Clone, Copy, PartialEq, Eq, Structural)]
pub enum PutPhase {
    /// The value that it replaces is read.
    Reading,
    /// It is written to the cluster.
    Writing,
    /// The read cache is told that the key is stale.
    Invalidating,
    Done,
}

/// What a write asks for next.
#[derive(Debug, PartialEq, Eq)]
pub enum PutStep {
    /// Read the value that it replaces.
    Read(KvRange),
    /// Write to the cluster.
    Write(KvPut),
    /// Tell the read cache that this key is stale.
    Invalidate(Vec<u8>),
    /// Answer.
    Answer,
}

/// Contents of [`PutStep`].
pub enum PutStepView {
    Read(KvRangeView),
    Write(KvPutView),
    Invalidate(Seq<u8>),
    Answer,
}

impl View for PutStep {
    type V = PutStepView;

    open spec fn view(&self) -> PutStepView {
        match *self {
            PutStep::Read(read) => PutStepView::Read(read@),
            PutStep::Write(write) => PutStepView::Write(write@),
            PutStep::Invalidate(key) => PutStepView::Invalidate(key@),
            PutStep::Answer => PutStepView::Answer,
        }
    }
}

/// A read of the latest values, their leases with them.
pub open spec fn latest_read(key: Seq<u8>, range_end: Seq<u8>, limit: i64) -> KvRangeView {
    KvRangeView { key, range_end, limit, revision: 0, keys_only: false, count_only: false }
}

/// The write that the cluster is asked for; the replaced value was read before it.
pub open spec fn cluster_put(req: PutRequestView) -> KvPutView {
    KvPutView {
        key: req.key,
        value: req.value,
        lease_id: req.lease_id,
        prev_kv: false,
        request_id: req.request_id,
    }
}

/// What a write asks for next.
pub open spec fn put_step(run: PutRunView, req: PutRequestView) -> PutStepView {
    match run.phase {
        PutPhase::Reading => PutStepView::Read(latest_read(req.key, Seq::empty(), 1)),
        PutPhase::Writing => PutStepView::Write(cluster_put(req)),
        PutPhase::Invalidating => PutStepView::Invalidate(req.key),
        PutPhase::Done => PutStepView::Answer,
    }
}

/// A write under way.
#[derive(Debug)]
pub struct PutRun {
    phase: PutPhase,
    prev: Option<KeyValue>,
    revision: i64,
    error: Option<ProxyError>,
}

/// Contents of [`PutRun`].
pub struct PutRunView {
    pub phase: PutPhase,
    pub prev: Option<KeyValueView>,
    pub revision: i64,
    pub error: Option<ProxyErrorView>,
}

/// A write before its first step; without a cluster it is answered at once.
pub open spec fn put_begin(connected: bool, prev_kv: bool) -> PutRunView {
    PutRunView {
        phase: if !connected {
            PutPhase::Done
        } else if prev_kv {
            PutPhase::Reading
        } else {
            PutPhase::Writing
        },
        prev: None,
        revision: if connected {
            0
        } else {
            1
        },
        error: None,
    }
}

/// The write after the value that it replaces was read.
pub open spec fn put_read(run: PutRunView, rows: Result<Vec<LeaseRow>, CoreError>) -> PutRunView {
    if run.phase is Reading {
        match rows {
            Err(e) => PutRunView {
                phase: PutPhase::Done,
                error: Some(error::cluster_failure(e)),
                ..run
            },
            Ok(found) => PutRunView {
                phase: PutPhase::Writing,
                prev: if found@.len() == 0 {
                    None
                } else {
                    Some(earlier_kv(found@[0]))
                },
                ..run
            },
        }
    } else {
        run
    }
}

/// The write after the cluster answered.
pub open spec fn put_written(run: PutRunView, written: Result<u64, CoreError>) -> PutRunView {
    if run.phase is Writing {
        match written {
            Err(e) => PutRunView {
                phase: PutPhase::Done,
                error: Some(error::cluster_failure(e)),
                ..run
            },
            Ok(revision) => PutRunView {
                phase: PutPhase::Invalidating,
                revision: revision as i64,
                ..run
            },
        }
    } else {
        run
    }
}

/// The write after the cache was told.
pub open spec fn put_invalidated(run: PutRunView) -> PutRunView {
    if run.phase is Invalidating {
        PutRunView { phase: PutPhase::Done, ..run }
    } else {
        run
    }
}

/// What a write is answered.
pub open spec fn put_answer(run: PutRunView) -> Result<PutResponseView, ProxyErrorView> {
    match run.error {
        Some(e) => Err(e),
        None => Ok(PutResponseView { prev_kv: run.prev, revision: run.revision }),
    }
}

impl View for PutRun {
    type V = PutRunView;

    closed spec fn view(&self) -> PutRunView {
        PutRunView {
            phase: self.phase,
            prev: backend::opt_view(self.prev),
            revision: self.revision,
            error: backend::opt_view(self.error),
        }
    }
}

impl PutRun {
    /// A write before its first step.
    pub fn new(connected: bool, req: &PutRequest) -> (r: Self)
        ensures
            r@ == put_begin(connected, req.prev_kv),
    {
        if !connected {
            PutRun { phase: PutPhase::Done, prev: None, revision: 1, error: None }
        } else if req.prev_kv {
            PutRun { phase: PutPhase::Reading, prev: None, revision: 0, error: None }
        } else {
            PutRun { phase: PutPhase::Writing, prev: None, revision: 0, error: None }
        }
    }

    /// Where the write stands.
    pub fn phase(&self) -> (r: PutPhase)
        ensures
            r == self@.phase,
    {
        self.phase
    }

    /// What the write asks for next.
    pub fn step(&self, req: &PutRequest) -> (r: PutStep)
        ensures
            r@ == put_step(self@, req@),
    {
        match self.phase {
            PutPhase::Reading => {
                let range_end: Vec<u8> = Vec::new();
                assert(range_end@ =~= Seq::<u8>::empty());
                PutStep::Read(
                    KvRange {
                        key: req.key.clone(),
                        range_end,
                        limit: 1,
                        revision: 0,
                        keys_only: false,
                        count_only: false,
                    },
                )
            },
            PutPhase::Writing => PutStep::Write(
                KvPut {
                    key: req.key.clone(),
                    value: req.value.clone(),
                    lease_id: req.lease_id,
                    prev_kv: false,
                    request_id: req.request_id.clone(),
                },
            ),
            PutPhase::Invalidating => PutStep::Invalidate(req.key.clone()),
            PutPhase::Done => PutStep::Answer,
        }
    }

    /// The write after the value that it replaces was read.
    pub fn read(self, rows: Result<Vec<LeaseRow>, CoreError>) -> (r: Self)
        ensures
            r@ == put_read(self@, rows),
    {
        if let PutPhase::Reading = self.phase {
            match rows {
                Err(e) => PutRun {
                    phase: PutPhase::Done,
                    prev: self.prev,
                    revision: self.revision,
                    error: Some(ProxyError::of_cluster(&e)),
                },
                Ok(mut found) => {
                    let prev = if found.len() == 0 {
                        None
                    } else {
                        Some(earlier(found.remove(0)))
                    };
                    PutRun {
                        phase: PutPhase::Writing,
                        prev,
                        revision: self.revision,
                        error: self.error,
                    }
                },
            }
        } else {
            self
        }
    }

    /// The write after the cluster answered.
    pub fn written(self, written: Result<u64, CoreError>) -> (r: Self)
        ensures
            r@ == put_written(self@, written),
    {
        if let PutPhase::Writing = self.phase {
            match written {
                Err(e) => PutRun {
                    phase: PutPhase::Done,
                    prev: self.prev,
                    revision: self.revision,
                    error: Some(ProxyError::of_cluster(&e)),
                },
                Ok(revision) => PutRun {
                    phase: PutPhase::Invalidating,
                    prev: self.prev,
                    revision: revision as i64,
                    error: self.error,
                },
            }
        } else {
            self
        }
    }

    /// The write after the cache was told.
    pub fn invalidated(self) -> (r: Self)
        ensures
            r@ == put_invalidated(self@),
    {
        if let PutPhase::Invalidating = self.phase {
            PutRun {
                phase: PutPhase::Done,
                prev: self.prev,
                revision: self.revision,
                error: self.error,
            }
        } else {
            self
        }
    }

    /// What the write is answered.
    pub fn into_answer(self) -> (r: Result<PutResponse, ProxyError>)
        ensures
            error::answer_view(r) == put_answer(self@),
    {
        match self.error {
            Some(e) => Err(e),
            None => Ok(PutResponse { prev_kv: self.prev, revision: self.revision }),
        }
    }
}

/// A write to the cluster: what it replaces is read first where that is wanted, and the key, the
/// value, the lease and the request's identifier are written as they came. The cache is told of
/// the key exactly where the cluster took the write, and after it did; a failure of either step is
/// what is answered.
pub proof fn law_writes_reach_the_cluster_before_the_cache(
    req: PutRequestView,
    rows: Result<Vec<LeaseRow>, CoreError>,
    written: Result<u64, CoreError>,
)
    ensures
        ({
            let prev_kv = req.prev_kv;
            let begun = put_begin(true, prev_kv);
            let ready = if prev_kv {
                put_read(begun, rows)
            } else {
                begun
            };
            let told = put_written(ready, written);
            let end = put_invalidated(told);
            &&& put_step(begun, req) == if prev_kv {
                PutStepView::Read(latest_read(req.key, Seq::empty(), 1))
            } else {
                PutStepView::Write(cluster_put(req))
            }
            &&& put_step(ready, req) == if prev_kv ==> rows is Ok {
                PutStepView::Write(cluster_put(req))
            } else {
                PutStepView::Answer
            }
            &&& put_step(told, req) == if (prev_kv ==> rows is Ok) && written is Ok {
                PutStepView::Invalidate(req.key)
            } else {
                PutStepView::Answer
            }
            &&& told.phase is Invalidating <==> (prev_kv ==> rows is Ok) && written is Ok
            &&& end.phase is Done
            &&& put_answer(end) is Ok <==> told.phase is Invalidating
            &&& put_answer(end) matches Ok(answer) ==> (written matches Ok(n) && answer.revision
                == n as i64)
        }),
{
}

// ---- reads ----

/// Whether the read cache may answer a request: one key, its latest value, and not just a count.
pub open spec fn cacheable(req: RangeRequestView) -> bool {
    !req.count_only && req.range_end.len() == 0 && req.revision == 0
}

/// Whether the read cache may answer a request.
pub fn may_use_cache(req: &RangeRequest) -> (r: bool)
    ensures
        r == cacheable(req@),
{
    !req.count_only && req.range_end.len() == 0 && req.revision == 0
}

/// The answer from the cache, which knows nothing of the key's history.
pub open spec fn cached_response(req: RangeRequestView, value: Seq<u8>) -> RangeResponseView {
    RangeResponseView {
        kvs: seq![
            KeyValueView {
                key: req.key,
                value: if req.keys_only {
                    Seq::empty()
                } else {
                    value
                },
                create_revision: 0,
                mod_revision: 0,
                version: 0,
                lease_id: 0,
            },
        ],
        count: 1,
        revision: 0,
    }
}

/// The answer from the cache, where it is switched on, may answer and holds the key.
pub fn cached_answer(connected: bool, enabled: bool, req: &RangeRequest, value: Option<Vec<u8>>) -> (r:
    Option<RangeResponse>)
    ensures
        match r {
            Some(answer) => connected && enabled && cacheable(req@) && (value matches Some(v)
                && answer@ == cached_response(req@, v@)),
            None => !connected || !enabled || !cacheable(req@) || value is None,
        },
{
    if !connected || !enabled || !may_use_cache(req) {
        return None;
    }
    match value {
        None => None,
        Some(v) => {
            let value = if req.keys_only {
                let none: Vec<u8> = Vec::new();
                assert(none@ =~= Seq::<u8>::empty());
                none
            } else {
                v
            };
            let mut kvs: Vec<KeyValue> = Vec::new();
            kvs.push(
                KeyValue {
                    key: req.key.clone(),
                    value,
                    create_revision: 0,
                    mod_revision: 0,
                    version: 0,
                    lease_id: 0,
                },
            );
            let answer = RangeResponse { kvs, count: 1, revision: 0 };
            assert(answer@.kvs =~= cached_response(req@, v@).kvs);
            Some(answer)
        },
    }
}

/// What is answered of a row.
pub open spec fn row_kv(row: KvRow, keys_only: bool) -> KeyValueView {
    KeyValueView {
        key: row.0@,
        value: if keys_only {
            Seq::empty()
        } else {
            row.1@
        },
        create_revision: 0,
        mod_revision: 0,
        version: row.3,
        lease_id: row.2,
    }
}

/// What is answered of rows.
pub open spec fn rows_kv(rows: Seq<KvRow>, keys_only: bool) -> Seq<KeyValueView> {
    Seq::new(rows.len(), |i: int| row_kv(rows[i], keys_only))
}

fn answered_rows(rows: Vec<KvRow>, keys_only: bool) -> (r: Vec<KeyValue>)
    ensures
        backend::views(r@) == rows_kv(rows@, keys_only),
{
    let ghost all = rows@;
    let ghost want = rows_kv(all, keys_only);
    let mut left = rows;
    let mut out: Vec<KeyValue> = Vec::new();
    let ghost mut done: int = 0;
    assert(left@ =~= all.skip(0));
    assert(backend::views(out@) =~= want.take(0));
    while left.len() > 0
        invariant
            0 <= done <= all.len(),
            want == rows_kv(all, keys_only),
            left@ == all.skip(done),
            backend::views(out@) == want.take(done),
        decreases left@.len(),
    {
        let ghost before = out@;
        assert(left@.len() == all.len() - done);
        assert(left@[0] == all[done]);
        let (key, stored, lease_id, version) = left.remove(0);
        assert(left@ =~= all.skip(done + 1));
        let value = if keys_only {
            let none: Vec<u8> = Vec::new();
            assert(none@ =~= Seq::<u8>::empty());
            none
        } else {
            stored
        };
        out.push(KeyValue { key, value, create_revision: 0, mod_revision: 0, version, lease_id });
        assert(backend::views(out@) =~= backend::views(before).push(want[done]));
        assert(want.take(done + 1) =~= want.take(done).push(want[done]));
        proof {
            done = done + 1;
        }
    }
    assert(left@.len() == all.len() - done);
    assert(want.take(done) =~= want);
    out
}

/// The read that the cluster is asked for: the request as it came.
pub fn cluster_read(req: &RangeRequest) -> (r: KvRange)
    ensures
        r@ == (KvRangeView {
            key: req.key@,
            range_end: req.range_end@,
            limit: req.limit,
            revision: req.revision,
            keys_only: req.keys_only,
            count_only: req.count_only,
        }),
{
    KvRange {
        key: req.key.clone(),
        range_end: req.range_end.clone(),
        limit: req.limit,
        revision: req.revision,
        keys_only: req.keys_only,
        count_only: req.count_only,
    }
}

/// The answer of the cluster to a read, or the placeholder where there is no cluster.
pub fn range_answer(
    req: &RangeRequest,
    read: Option<Result<(Vec<KvRow>, i64, i64), CoreError>>,
) -> (r: Result<RangeResponse, ProxyError>)
    ensures
        error::answer_view(r) == match read {
            None => Ok(RangeResponseView { kvs: Seq::empty(), count: 0, revision: 0 }),
            Some(Err(e)) => Err(error::cluster_failure(e)),
            Some(Ok((rows, count, revision))) => Ok(
                RangeResponseView { kvs: rows_kv(rows@, req.keys_only), count, revision },
            ),
        },
{
    match read {
        None => {
            let kvs: Vec<KeyValue> = Vec::new();
            assert(backend::views(kvs@) =~= Seq::<KeyValueView>::empty());
            Ok(RangeResponse { kvs, count: 0, revision: 0 })
        },
        Some(Err(e)) => Err(ProxyError::of_cluster(&e)),
        Some(Ok((rows, count, revision))) => Ok(
            RangeResponse { kvs: answered_rows(rows, req.keys_only), count, revision },
        ),
    }
}

/// Keys and values that the cache is filled with.
pub open spec fn fills_of(kvs: Seq<KeyValueView>) -> Seq<(Seq<u8>, Seq<u8>)>
    decreases kvs.len(),
{
    if kvs.len() == 0 {
        Seq::empty()
    } else {
        let rest = fills_of(kvs.drop_last());
        if kvs.last().value.len() > 0 {
            rest.push((kvs.last().key, kvs.last().value))
        } else {
            rest
        }
    }
}

/// Contents of pairs of bytes.
pub open spec fn pair_views(v: Seq<(Vec<u8>, Vec<u8>)>) -> Seq<(Seq<u8>, Seq<u8>)> {
    Seq::new(v.len(), |i: int| (v[i].0@, v[i].1@))
}

/// What the cache is filled with after a read: the values that came with the read of one key's
/// latest value, and nothing after any other read.
pub open spec fn read_fills(req: RangeRequestView, kvs: Seq<KeyValueView>) -> Seq<
    (Seq<u8>, Seq<u8>),
> {
    if req.keys_only || !cacheable(req) {
        Seq::empty()
    } else {
        fills_of(kvs)
    }
}

/// What the cache is filled with after a read.
pub fn cache_fills(req: &RangeRequest, answer: &RangeResponse) -> (r: Vec<(Vec<u8>, Vec<u8>)>)
    ensures
        pair_views(r@) == read_fills(req@, answer@.kvs),
{
    let mut out: Vec<(Vec<u8>, Vec<u8>)> = Vec::new();
    if req.keys_only || !may_use_cache(req) {
        assert(pair_views(out@) =~= Seq::empty());
        return out;
    }
    let ghost kvs = answer@.kvs;
    let mut i: usize = 0;
    assert(pair_views(out@) =~= fills_of(kvs.take(0)));
    while i < answer.kvs.len()
        invariant
            i <= answer.kvs@.len(),
            kvs == backend::views(answer.kvs@),
            pair_views(out@) == fills_of(kvs.take(i as int)),
        decreases answer.kvs@.len() - i,
    {
        let ghost before = out@;
        assert(kvs.take(i + 1).drop_last() =~= kvs.take(i as int));
        assert(kvs.take(i + 1).last() == answer.kvs@[i as int]@);
        if answer.kvs[i].value.len() > 0 {
            out.push((answer.kvs[i].key.clone(), answer.kvs[i].value.clone()));
            assert(pair_views(out@) =~= pair_views(before).push(
                (kvs[i as int].key, kvs[i as int].value),
            ));
        }
        i += 1;
    }
    assert(kvs.take(kvs.len() as int) =~= kvs);
    out
}

/// A read of an earlier revision, of a range or of a count neither takes the cached value nor
/// fills the cache, and a cached answer never makes a history up.
pub proof fn law_cached_answers_are_honest(
    req: RangeRequestView,
    value: Seq<u8>,
    kvs: Seq<KeyValueView>,
)
    ensures
        cacheable(req) ==> req.revision == 0 && req.range_end.len() == 0 && !req.count_only,
        req.revision != 0 || req.range_end.len() > 0 || req.count_only ==> read_fills(
            req,
            kvs,
        ).len() == 0,
        cached_response(req, value).revision == 0,
        cached_response(req, value).count == cached_response(req, value).kvs.len(),
        forall|i: int|
            0 <= i < cached_response(req, value).kvs.len() ==> {
                let kv = #[trigger] cached_response(req, value).kvs[i];
                kv.create_revision == 0 && kv.mod_revision == 0 && kv.version == 0 && kv.lease_id
                    == 0
            },
{
}

// ---- deletes ----

/// Where a delete stands.
#[derive(Debug, Clone, Copy, PartialEq, Eq, Structural)]
pub enum DeletePhase {
    /// The values that it deletes are read.
    Reading,
    /// The read cache is told that the key is stale.
    Invalidating,
    /// It is carried out by the cluster.
    Deleting,
    Done,
}

/// What a delete asks for next.
#[derive(Debug, PartialEq, Eq)]
pub enum DeleteStep {
    /// Read the values that it deletes.
    Read(KvRange),
    /// Tell the read cache that this key is stale.
    Invalidate(Vec<u8>),
    /// Delete on the cluster.
    Delete(KvDelete),
    /// Answer.
    Answer,
}

/// Contents of [`DeleteStep`].
pub enum DeleteStepView {
    Read(KvRangeView),
    Invalidate(Seq<u8>),
    Delete(KvDeleteView),
    Answer,
}

impl View for DeleteStep {
    type V = DeleteStepView;

    open spec fn view(&self) -> DeleteStepView {
        match *self {
            DeleteStep::Read(read) => DeleteStepView::Read(read@),
            DeleteStep::Invalidate(key) => DeleteStepView::Invalidate(key@),
            DeleteStep::Delete(delete) => DeleteStepView::Delete(delete@),
            DeleteStep::Answer => DeleteStepView::Answer,
        }
    }
}

/// The delete that the cluster is asked for; the deleted values were read before it.
pub open spec fn cluster_delete(req: DeleteRequestView) -> KvDeleteView {
    KvDeleteView {
        key: req.key,
        range_end: req.range_end,
        prev_kv: false,
        request_id: req.request_id,
    }
}

/// What a delete asks for next.
pub open spec fn delete_step(run: DeleteRunView, req: DeleteRequestView) -> DeleteStepView {
    match run.phase {
        DeletePhase::Reading => DeleteStepView::Read(
            latest_read(req.key, req.range_end, delete_read_limit(req.range_end)),
        ),
        DeletePhase::Invalidating => DeleteStepView::Invalidate(req.key),
        DeletePhase::Deleting => DeleteStepView::Delete(cluster_delete(req)),
        DeletePhase::Done => DeleteStepView::Answer,
    }
}

/// A delete under way.
#[derive(Debug)]
pub struct DeleteRun {
    phase: DeletePhase,
    prev: Vec<KeyValue>,
    deleted: i64,
    revision: i64,
    error: Option<ProxyError>,
}

/// Contents of [`DeleteRun`].
pub struct DeleteRunView {
    pub phase: DeletePhase,
    pub prev: Seq<KeyValueView>,
    pub deleted: i64,
    pub revision: i64,
    pub error: Option<ProxyErrorView>,
}

/// How many of the deleted values are read: one for a single key, all for a range.
pub open spec fn delete_read_limit(range_end: Seq<u8>) -> i64 {
    if range_end.len() == 0 {
        1
    } else {
        0
    }
}

/// How many of the deleted values are read; zero for all.
pub fn deleted_read_limit(req: &DeleteRequest) -> (r: i64)
    ensures
        r == delete_read_limit(req.range_end@),
{
    if req.range_end.len() == 0 {
        1
    } else {
        0
    }
}

/// A delete before its first step; without a cluster it is answered at once.
pub open spec fn delete_begin(connected: bool, prev_kv: bool) -> DeleteRunView {
    DeleteRunView {
        phase: if !connected {
            DeletePhase::Done
        } else if prev_kv {
            DeletePhase::Reading
        } else {
            DeletePhase::Invalidating
        },
        prev: Seq::empty(),
        deleted: if connected {
            0
        } else {
            1
        },
        revision: if connected {
            0
        } else {
            1
        },
        error: None,
    }
}

/// The delete after the values that it deletes were read.
pub open spec fn delete_read(run: DeleteRunView, rows: Result<Vec<LeaseRow>, CoreError>) -> DeleteRunView {
    if run.phase is Reading {
        match rows {
            Err(e) => DeleteRunView {
                phase: DeletePhase::Done,
                error: Some(error::cluster_failure(e)),
                ..run
            },
            Ok(found) => DeleteRunView {
                phase: DeletePhase::Invalidating,
                prev: Seq::new(found@.len(), |i: int| earlier_kv(found@[i])),
                ..run
            },
        }
    } else {
        run
    }
}

/// The delete after the cache was told.
pub open spec fn delete_invalidated(run: DeleteRunView) -> DeleteRunView {
    if run.phase is Invalidating {
        DeleteRunView { phase: DeletePhase::Deleting, ..run }
    } else {
        run
    }
}

/// The delete after the cluster answered.
pub open spec fn delete_done(run: DeleteRunView, deleted: Result<(i64, i64), CoreError>) -> DeleteRunView {
    if run.phase is Deleting {
        match deleted {
            Err(e) => DeleteRunView {
                phase: DeletePhase::Done,
                error: Some(error::cluster_failure(e)),
                ..run
            },
            Ok((count, revision)) => DeleteRunView {
                phase: DeletePhase::Done,
                deleted: count,
                revision,
                ..run
            },
        }
    } else {
        run
    }
}

/// What a delete is answered.
pub open spec fn delete_answer(run: DeleteRunView) -> Result<DeleteResponseView, ProxyErrorView> {
    match run.error {
        Some(e) => Err(e),
        None => Ok(
            DeleteResponseView { deleted: run.deleted, prev_kvs: run.prev, revision: run.revision },
        ),
    }
}

impl View for DeleteRun {
    type V = DeleteRunView;

    closed spec fn view(&self) -> DeleteRunView {
        DeleteRunView {
            phase: self.phase,
            prev: backend::views(self.prev@),
            deleted: self.deleted,
            revision: self.revision,
            error: backend::opt_view(self.error),
        }
    }
}

impl DeleteRun {
    /// A delete before its first step.
    pub fn new(connected: bool, req: &DeleteRequest) -> (r: Self)
        ensures
            r@ == delete_begin(connected, req.prev_kv),
    {
        let prev: Vec<KeyValue> = Vec::new();
        assert(backend::views(prev@) =~= Seq::<KeyValueView>::empty());
        if !connected {
            DeleteRun { phase: DeletePhase::Done, prev, deleted: 1, revision: 1, error: None }
        } else if req.prev_kv {
            DeleteRun { phase: DeletePhase::Reading, prev, deleted: 0, revision: 0, error: None }
        } else {
            DeleteRun {
                phase: DeletePhase::Invalidating,
                prev,
                deleted: 0,
                revision: 0,
                error: None,
            }
        }
    }

    /// Where the delete stands.
    pub fn phase(&self) -> (r: DeletePhase)
        ensures
            r == self@.phase,
    {
        self.phase
    }

    /// What the delete asks for next.
    pub fn step(&self, req: &DeleteRequest) -> (r: DeleteStep)
        ensures
            r@ == delete_step(self@, req@),
    {
        match self.phase {
            DeletePhase::Reading => DeleteStep::Read(
                KvRange {
                    key: req.key.clone(),
                    range_end: req.range_end.clone(),
                    limit: deleted_read_limit(req),
                    revision: 0,
                    keys_only: false,
                    count_only: false,
                },
            ),
            DeletePhase::Invalidating => DeleteStep::Invalidate(req.key.clone()),
            DeletePhase::Deleting => DeleteStep::Delete(
                KvDelete {
                    key: req.key.clone(),
                    range_end: req.range_end.clone(),
                    prev_kv: false,
                    request_id: req.request_id.clone(),
                },
            ),
            DeletePhase::Done => DeleteStep::Answer,
        }
    }

    /// The delete after the values that it deletes were read.
    pub fn read(self, rows: Result<Vec<LeaseRow>, CoreError>) -> (r: Self)
        ensures
            r@ == delete_read(self@, rows),
    {
        if let DeletePhase::Reading = self.phase {
            match rows {
                Err(e) => DeleteRun {
                    phase: DeletePhase::Done,
                    prev: self.prev,
                    deleted: self.deleted,
                    revision: self.revision,
                    error: Some(ProxyError::of_cluster(&e)),
                },
                Ok(found) => DeleteRun {
                    phase: DeletePhase::Invalidating,
                    prev: earlier_all(found),
                    deleted: self.deleted,
                    revision: self.revision,
                    error: self.error,
                },
            }
        } else {
            self
        }
    }

    /// The delete after the cache was told.
    pub fn invalidated(self) -> (r: Self)
        ensures
            r@ == delete_invalidated(self@),
    {
        if let DeletePhase::Invalidating = self.phase {
            DeleteRun {
                phase: DeletePhase::Deleting,
                prev: self.prev,
                deleted: self.deleted,
                revision: self.revision,
                error: self.error,
            }
        } else {
            self
        }
    }

    /// The delete after the cluster answered.
    pub fn deleted(self, outcome: Result<(i64, i64), CoreError>) -> (r: Self)
        ensures
            r@ == delete_done(self@, outcome),
    {
        if let DeletePhase::Deleting = self.phase {
            match outcome {
                Err(e) => DeleteRun {
                    phase: DeletePhase::Done,
                    prev: self.prev,
                    deleted: self.deleted,
                    revision: self.revision,
                    error: Some(ProxyError::of_cluster(&e)),
                },
                Ok((count, revision)) => DeleteRun {
                    phase: DeletePhase::Done,
                    prev: self.prev,
                    deleted: count,
                    revision,
                    error: self.error,
                },
            }
        } else {
            self
        }
    }

    /// What the delete is answered.
    pub fn into_answer(self) -> (r: Result<DeleteResponse, ProxyError>)
        ensures
            error::answer_view(r) == delete_answer(self@),
    {
        match self.error {
            Some(e) => Err(e),
            None => Ok(
                DeleteResponse {
                    deleted: self.deleted,
                    prev_kvs: self.prev,
                    revision: self.revision,
                },
            ),
        }
    }
}

/// A delete: what goes is read first where that is wanted, the cache is told of the key next, and
/// the cluster is asked for the delete after that; a failure of either step on the cluster is what
/// is answered.
pub proof fn law_deletes_reach_the_cache_before_the_cluster(
    req: DeleteRequestView,
    rows: Result<Vec<LeaseRow>, CoreError>,
    deleted: Result<(i64, i64), CoreError>,
)
    ensures
        ({
            let prev_kv = req.prev_kv;
            let begun = delete_begin(true, prev_kv);
            let ready = if prev_kv {
                delete_read(begun, rows)
            } else {
                begun
            };
            let told = delete_invalidated(ready);
            let end = delete_done(told, deleted);
            &&& prev_kv ==> delete_step(begun, req) == DeleteStepView::Read(
                latest_read(req.key, req.range_end, delete_read_limit(req.range_end)),
            )
            &&& delete_step(ready, req) == if prev_kv ==> rows is Ok {
                DeleteStepView::Invalidate(req.key)
            } else {
                DeleteStepView::Answer
            }
            &&& delete_step(told, req) == if prev_kv ==> rows is Ok {
                DeleteStepView::Delete(cluster_delete(req))
            } else {
                DeleteStepView::Answer
            }
            &&& told.phase is Deleting <==> (prev_kv ==> rows is Ok)
            &&& delete_done(ready, deleted) == ready
            &&& end.phase is Done
            &&& delete_answer(end) is Ok <==> (prev_kv ==> rows is Ok) && deleted is Ok
            &&& delete_answer(end) matches Ok(answer) ==> (deleted matches Ok(d) && answer.deleted
                == d.0 && answer.revision == d.1)
        }),
{
}

// ---- transactions ----

/// The key that an operation changes, where it changes one.
pub open spec fn changed_key(op: Option<RequestOp>) -> Option<Seq<u8>> {
    match op {
        Some(RequestOp::RequestPut(p)) => Some(p.key@),
        Some(RequestOp::RequestDelete(d)) => Some(d.key@),
        _ => None,
    }
}

/// The keys that operations change, in order.
pub open spec fn changed_keys(ops: Seq<Option<RequestOp>>) -> Seq<Seq<u8>>
    decreases ops.len(),
{
    if ops.len() == 0 {
        Seq::empty()
    } else {
        let rest = changed_keys(ops.drop_last());
        match changed_key(ops.last()) {
            Some(k) => rest.push(k),
            None => rest,
        }
    }
}

/// Keys of conditions.
pub open spec fn compared_keys(compares: Seq<WireCompare>) -> Seq<Seq<u8>> {
    Seq::new(compares.len(), |i: int| compares[i].key@)
}

/// Contents of byte strings.
pub open spec fn bytes_views(v: Seq<Vec<u8>>) -> Seq<Seq<u8>> {
    Seq::new(v.len(), |i: int| v[i]@)
}

fn push_changed(out: &mut Vec<Vec<u8>>, ops: &Vec<Option<RequestOp>>)
    ensures
        bytes_views(final(out)@) == bytes_views(old(out)@) + changed_keys(ops@),
{
    let ghost start = bytes_views(out@);
    let mut i: usize = 0;
    assert(bytes_views(out@) =~= start + changed_keys(ops@.take(0)));
    while i < ops.len()
        invariant
            i <= ops@.len(),
            bytes_views(out@) == start + changed_keys(ops@.take(i as int)),
        decreases ops@.len() - i,
    {
        let ghost before = out@;
        assert(ops@.take(i + 1).drop_last() =~= ops@.take(i as int));
        match &ops[i] {
            Some(RequestOp::RequestPut(p)) => {
                out.push(p.key.clone());
                assert(bytes_views(out@) =~= bytes_views(before).push(p.key@));
            },
            Some(RequestOp::RequestDelete(d)) => {
                out.push(d.key.clone());
                assert(bytes_views(out@) =~= bytes_views(before).push(d.key@));
            },
            _ => {},
        }
        assert(bytes_views(out@) =~= start + changed_keys(ops@.take(i + 1)));
        i += 1;
    }
    assert(ops@.take(ops@.len() as int) =~= ops@);
}

/// What a transaction is answered: whether it succeeded, the revision, and the answers to its
/// operations.
pub type TxnAnswer = (bool, i64, Vec<Option<ResponseOp>>);

/// What a transaction is answered: what the cluster answered, or a placeholder where there is no
/// cluster, as of a transaction that did not succeed.
pub fn txn_answer(answer: Option<Result<TxnAnswer, CoreError>>) -> (r: Result<TxnAnswer, ProxyError>)
    ensures
        match answer {
            None => r matches Ok(a) && !a.0 && a.1 == 0 && a.2@.len() == 0,
            Some(Ok(given)) => r == Ok::<TxnAnswer, ProxyError>(given),
            Some(Err(e)) => r matches Err(f) && f@ == error::cluster_failure(e),
        },
{
    match answer {
        None => Ok((false, 0, Vec::new())),
        Some(Ok(given)) => Ok(given),
        Some(Err(e)) => Err(ProxyError::of_cluster(&e)),
    }
}

/// The keys that the cache is told of before a transaction: those it compares and those that
/// either branch writes or deletes.
pub fn txn_invalidations(
    compares: &Vec<WireCompare>,
    success: &Vec<Option<RequestOp>>,
    failure: &Vec<Option<RequestOp>>,
) -> (r: Vec<Vec<u8>>)
    ensures
        bytes_views(r@) == compared_keys(compares@) + changed_keys(success@) + changed_keys(failure@),
{
    let mut out: Vec<Vec<u8>> = Vec::new();
    let mut i: usize = 0;
    assert(bytes_views(out@) =~= compared_keys(compares@).take(0));
    while i < compares.len()
        invariant
            i <= compares@.len(),
            bytes_views(out@) == compared_keys(compares@).take(i as int),
        decreases compares@.len() - i,
    {
        let ghost before = out@;
        out.push(compares[i].key.clone());
        assert(bytes_views(out@) =~= bytes_views(before).push(compares@[i as int].key@));
        assert(bytes_views(out@) =~= compared_keys(compares@).take(i + 1));
        i += 1;
    }
    assert(bytes_views(out@) =~= compared_keys(compares@));
    push_changed(&mut out, success);
    push_changed(&mut out, failure);
    out
}

proof fn lemma_changed_keys(ops: Seq<Option<RequestOp>>, i: int)
    requires
        0 <= i < ops.len(),
        changed_key(ops[i]) is Some,
    ensures
        changed_keys(ops).contains(changed_key(ops[i])->0),
    decreases ops.len(),
{
    let rest = changed_keys(ops.drop_last());
    let key = changed_key(ops[i])->0;
    if i == ops.len() - 1 {
        assert(changed_keys(ops)[rest.len() as int] == key);
    } else {
        lemma_changed_keys(ops.drop_last(), i);
        let j = choose|j: int| 0 <= j < rest.len() && rest[j] == key;
        assert(changed_keys(ops)[j] == key);
    }
}

/// Whichever branch a transaction takes, the cache is told of every key that it writes or
/// deletes.
pub proof fn law_transactions_leave_no_stale_key(
    compares: Seq<WireCompare>,
    success: Seq<Option<RequestOp>>,
    failure: Seq<Option<RequestOp>>,
)
    ensures
        ({
            let told = compared_keys(compares) + changed_keys(success) + changed_keys(failure);
            &&& forall|i: int|
                0 <= i < success.len() && #[trigger] changed_key(success[i]) is Some
                    ==> told.contains(changed_key(success[i])->0)
            &&& forall|i: int|
                0 <= i < failure.len() && #[trigger] changed_key(failure[i]) is Some
                    ==> told.contains(changed_key(failure[i])->0)
        }),
{
    let a = compared_keys(compares);
    let b = changed_keys(success);
    let c = changed_keys(failure);
    let told = a + b + c;
    assert forall|i: int| 0 <= i < success.len() && #[trigger] changed_key(success[i]) is Some implies told.contains(
    changed_key(success[i])->0) by {
        lemma_changed_keys(success, i);
        let j = choose|j: int| 0 <= j < b.len() && b[j] == changed_key(success[i])->0;
        assert(told[a.len() + j] == changed_key(success[i])->0);
    }
    assert forall|i: int| 0 <= i < failure.len() && #[trigger] changed_key(failure[i]) is Some implies told.contains(
    changed_key(failure[i])->0) by {
        lemma_changed_keys(failure, i);
        let j = choose|j: int| 0 <= j < c.len() && c[j] == changed_key(failure[i])->0;
        assert(told[a.len() + b.len() + j] == changed_key(failure[i])->0);
    }
}

} // verus!
