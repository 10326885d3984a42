//! What components hold, ask for and see.
use crate::name_map::NameMap;
use crate::plugin::component_engine;
use crate::plugin::component_engine::{
    ComponentHandles, HostHandle, StorageDownloader, WatchSubscription,
};
use crate::plugin::manifest::PluginLimits;
use crate::plugin::sdk::backend;
use crate::plugin::sdk::backend::{
    Compare, KvDelete, KvDeleteOut, KvPut, KvPutOut, KvRangeOut, KvRecord, ObjectPutOut,
    ObjectStatDto, SdkError, SdkResult, TxnOp, TxnOpOut, TxnOut, TxnReq, WatchEventDto,
};
use crate::plugin::wit::{
    delete_of, env_of, limits_of, put_of, request_id_of, txn_from_wit, txn_op_from_wit,
    uploaded_stat, visible_stat, wit_delete_out, wit_err, wit_kv, wit_lease, wit_object_stat,
    wit_put_out, wit_range_out, wit_txn_op_out, wit_txn_out, wit_watch_event, HostError, WitCompare,
    WitDeleteOut, WitLease, WitLimits, WitOp, WitOpOut, WitPutOut, WitTxn, WitTxnOut,
};
use vstd::prelude::*;
use vstd::utf8::*;

verus! {

// ---- handles ----

/// Handles by number.
pub type Held = Map<u32, HostHandle>;

/// Whether a number holds an open watch with an id.
pub open spec fn holds_watch(m: Held, rep: u32, id: u64) -> bool {
    m.dom().contains(rep) && m[rep] == HostHandle::Subscription(
        WatchSubscription { id, closed: false },
    )
}

/// Whether a number holds an open download with an id.
pub open spec fn holds_download(m: Held, rep: u32, id: u64) -> bool {
    m.dom().contains(rep) && m[rep] == HostHandle::Downloader(
        StorageDownloader { id, closed: false },
    )
}

/// Whether a number holds an unfinished upload with an id.
pub open spec fn holds_upload(m: Held, rep: u32, id: u64) -> bool {
    m.dom().contains(rep) && (m[rep] matches HostHandle::Uploader(u) && u.id == id && !u.finished)
}

/// Whether two sets of handles agree everywhere but at a number.
pub open spec fn agree_but_at(a: Held, b: Held, rep: u32) -> bool {
    forall|k: u32|
        k != rep ==> (#[trigger] a.dom().contains(k) <==> b.dom().contains(k)) && (a.dom().contains(k)
            ==> a[k] == b[k])
}

/// Whether a failure says that a handle cannot be used.
pub open spec fn says_invalid(e: HostError) -> bool {
    e is InvalidArgument
}

/// A watch is taken in exactly where there is room, under a number that was free, and is then read
/// from by that number; nothing else changes.
pub proof fn law_watches_are_taken_in(
    h: &mut ComponentHandles,
    id: u64,
    r: Result<u32, HostError>,
    after: ComponentHandles,
    rep: u32,
    next: Result<u64, HostError>,
)
    requires
        call_ensures(ComponentHandles::add_subscription, (h, id), r),
        after == *final(h),
        call_ensures(ComponentHandles::next_subscription, (&after, rep), next),
    ensures
        r is Ok <==> old(h).order().len() < old(h).room(),
        r matches Err(e) ==> e is ResourceExhausted && after@ == old(h)@,
        r matches Ok(n) ==> !old(h)@.dom().contains(n) && holds_watch(after@, n, id) && agree_but_at(
            old(h)@,
            after@,
            n,
        ),
        r == Ok::<u32, HostError>(rep) ==> next == Ok::<u64, HostError>(id),
        after.room() == old(h).room(),
{
}

/// A watch is read from as long as it is open.
pub proof fn law_open_watches_are_read_from(h: ComponentHandles, rep: u32, id: u64, r: Result<u64, HostError>)
    requires
        call_ensures(ComponentHandles::next_subscription, (&h, rep), r),
    ensures
        holds_watch(h@, rep, id) ==> r == Ok::<u64, HostError>(id),
        r matches Ok(got) ==> holds_watch(h@, rep, got),
        r matches Err(e) ==> says_invalid(e),
{
    if let Ok(got) = r {
        assert(holds_watch(h@, rep, got));
    }
}

/// A watch that is open is closed and its id handed out, so that it is released; after that it is not
/// read from, and closing it again hands nothing out.
pub proof fn law_watches_are_closed_once(
    h: &mut ComponentHandles,
    rep: u32,
    id: u64,
    r: Result<Option<u64>, HostError>,
    after: ComponentHandles,
    next: Result<u64, HostError>,
    again: &mut ComponentHandles,
    second: Result<Option<u64>, HostError>,
)
    requires
        call_ensures(ComponentHandles::close_subscription, (h, rep), r),
        after == *final(h),
        call_ensures(ComponentHandles::next_subscription, (&after, rep), next),
        *old(again) == after,
        call_ensures(ComponentHandles::close_subscription, (again, rep), second),
    ensures
        holds_watch(old(h)@, rep, id) ==> r == Ok::<Option<u64>, HostError>(Some(id)),
        r matches Ok(Some(got)) ==> holds_watch(old(h)@, rep, got),
        next is Err,
        r is Ok ==> second == Ok::<Option<u64>, HostError>(None),
        r is Err ==> second is Err && after@ == old(h)@,
        agree_but_at(old(h)@, after@, rep),
{
    if let Ok(Some(got)) = r {
        assert(holds_watch(old(h)@, rep, got));
    }
}

/// A watch that is dropped is gone, and its id is handed out where it was still open.
pub proof fn law_dropped_watches_are_released(
    h: &mut ComponentHandles,
    rep: u32,
    id: u64,
    r: Option<u64>,
)
    requires
        call_ensures(ComponentHandles::drop_subscription, (h, rep), r),
    ensures
        r == Some(id) <==> holds_watch(old(h)@, rep, id),
        !final(h)@.dom().contains(rep),
        agree_but_at(old(h)@, final(h)@, rep),
{
}

/// A download is taken in exactly where there is room, and is then read from by its number.
pub proof fn law_downloads_are_taken_in(
    h: &mut ComponentHandles,
    id: u64,
    r: Result<u32, HostError>,
    after: ComponentHandles,
    rep: u32,
    read: Result<u64, HostError>,
)
    requires
        call_ensures(ComponentHandles::add_downloader, (h, id), r),
        after == *final(h),
        call_ensures(ComponentHandles::read_downloader, (&after, rep), read),
    ensures
        r is Ok <==> old(h).order().len() < old(h).room(),
        r matches Err(e) ==> e is ResourceExhausted && after@ == old(h)@,
        r matches Ok(n) ==> !old(h)@.dom().contains(n) && holds_download(after@, n, id)
            && agree_but_at(old(h)@, after@, n),
        r == Ok::<u32, HostError>(rep) ==> read == Ok::<u64, HostError>(id),
        after.room() == old(h).room(),
{
}

/// A download is read from as long as it is open.
pub proof fn law_open_downloads_are_read_from(
    h: ComponentHandles,
    rep: u32,
    id: u64,
    r: Result<u64, HostError>,
)
    requires
        call_ensures(ComponentHandles::read_downloader, (&h, rep), r),
    ensures
        holds_download(h@, rep, id) ==> r == Ok::<u64, HostError>(id),
        r matches Ok(got) ==> holds_download(h@, rep, got),
        r matches Err(e) ==> says_invalid(e),
{
    if let Ok(got) = r {
        assert(holds_download(h@, rep, got));
    }
}

/// A download is closed once, and not read from after that.
pub proof fn law_downloads_are_closed_once(
    h: &mut ComponentHandles,
    rep: u32,
    id: u64,
    r: Result<Option<u64>, HostError>,
    after: ComponentHandles,
    read: Result<u64, HostError>,
    again: &mut ComponentHandles,
    second: Result<Option<u64>, HostError>,
)
    requires
        call_ensures(ComponentHandles::close_downloader, (h, rep), r),
        after == *final(h),
        call_ensures(ComponentHandles::read_downloader, (&after, rep), read),
        *old(again) == after,
        call_ensures(ComponentHandles::close_downloader, (again, rep), second),
    ensures
        holds_download(old(h)@, rep, id) ==> r == Ok::<Option<u64>, HostError>(Some(id)),
        r matches Ok(Some(got)) ==> holds_download(old(h)@, rep, got),
        read is Err,
        r is Ok ==> second == Ok::<Option<u64>, HostError>(None),
        r is Err ==> second is Err && after@ == old(h)@,
        agree_but_at(old(h)@, after@, rep),
{
    if let Ok(Some(got)) = r {
        assert(holds_download(old(h)@, rep, got));
    }
}

/// A download that is dropped is gone, and its id is handed out where it was still open.
pub proof fn law_dropped_downloads_are_closed(
    h: &mut ComponentHandles,
    rep: u32,
    id: u64,
    r: Option<u64>,
)
    requires
        call_ensures(ComponentHandles::drop_downloader, (h, rep), r),
    ensures
        r == Some(id) <==> holds_download(old(h)@, rep, id),
        !final(h)@.dom().contains(rep),
        agree_but_at(old(h)@, final(h)@, rep),
{
}

/// An upload is taken in exactly where there is room, with its bucket and its object, and is then
/// written to by its number.
pub proof fn law_uploads_are_taken_in(
    h: &mut ComponentHandles,
    id: u64,
    bucket: String,
    object: Vec<u8>,
    r: Result<u32, HostError>,
    after: ComponentHandles,
    rep: u32,
    write: Result<u64, HostError>,
)
    requires
        call_ensures(ComponentHandles::add_uploader, (h, id, bucket, object), r),
        after == *final(h),
        call_ensures(ComponentHandles::write_uploader, (&after, rep), write),
    ensures
        r is Ok <==> old(h).order().len() < old(h).room(),
        r matches Err(e) ==> e is ResourceExhausted && after@ == old(h)@,
        r matches Ok(n) ==> !old(h)@.dom().contains(n) && holds_upload(after@, n, id) && (
        after@[n] matches HostHandle::Uploader(u) && u.bucket@ == bucket@ && u.object_id@ == object@)
            && agree_but_at(old(h)@, after@, n),
        r == Ok::<u32, HostError>(rep) ==> write == Ok::<u64, HostError>(id),
        after.room() == old(h).room(),
{
}

/// An upload is written to as long as it is not finished.
pub proof fn law_open_uploads_are_written_to(
    h: ComponentHandles,
    rep: u32,
    id: u64,
    r: Result<u64, HostError>,
)
    requires
        call_ensures(ComponentHandles::write_uploader, (&h, rep), r),
    ensures
        holds_upload(h@, rep, id) ==> r == Ok::<u64, HostError>(id),
        r matches Ok(got) ==> holds_upload(h@, rep, got),
        r matches Err(e) ==> if h@.dom().contains(rep) && h@[rep] is Uploader {
            e is NotFound
        } else {
            says_invalid(e)
        },
{
    if let Ok(got) = r {
        assert(holds_upload(h@, rep, got));
    }
}

/// An upload is committed once: its id, its bucket and its object are handed out, and after that it
/// is neither written to, committed nor aborted.
pub proof fn law_uploads_are_committed_once(
    h: &mut ComponentHandles,
    rep: u32,
    r: Result<(u64, String, Vec<u8>), HostError>,
    after: ComponentHandles,
    write: Result<u64, HostError>,
    again: &mut ComponentHandles,
    second: Result<(u64, String, Vec<u8>), HostError>,
    late: &mut ComponentHandles,
    aborted: Result<Option<u64>, HostError>,
)
    requires
        call_ensures(ComponentHandles::commit_uploader, (h, rep), r),
        after == *final(h),
        call_ensures(ComponentHandles::write_uploader, (&after, rep), write),
        *old(again) == after,
        call_ensures(ComponentHandles::commit_uploader, (again, rep), second),
        *old(late) == after,
        call_ensures(ComponentHandles::abort_uploader, (late, rep), aborted),
    ensures
        r is Ok <==> exists|x: u64| holds_upload(old(h)@, rep, x),
        r matches Ok(out) ==> holds_upload(old(h)@, rep, out.0) && (
        old(h)@[rep] matches HostHandle::Uploader(u) && out.1@ == u.bucket@ && out.2@ == u.object_id@),
        write is Err && second is Err,
        r is Ok ==> aborted == Ok::<Option<u64>, HostError>(None),
        r is Err ==> after@ == old(h)@,
        agree_but_at(old(h)@, after@, rep),
{
    if let Ok(out) = r {
        assert(holds_upload(old(h)@, rep, out.0));
    }
    if exists|x: u64| holds_upload(old(h)@, rep, x) {
        let x = choose|x: u64| holds_upload(old(h)@, rep, x);
        assert(holds_upload(old(h)@, rep, x));
    }
}

/// An upload is aborted once: its id is handed out, and after that it is not written to.
pub proof fn law_uploads_are_aborted_once(
    h: &mut ComponentHandles,
    rep: u32,
    id: u64,
    r: Result<Option<u64>, HostError>,
    after: ComponentHandles,
    write: Result<u64, HostError>,
    again: &mut ComponentHandles,
    second: Result<Option<u64>, HostError>,
)
    requires
        call_ensures(ComponentHandles::abort_uploader, (h, rep), r),
        after == *final(h),
        call_ensures(ComponentHandles::write_uploader, (&after, rep), write),
        *old(again) == after,
        call_ensures(ComponentHandles::abort_uploader, (again, rep), second),
    ensures
        holds_upload(old(h)@, rep, id) ==> r == Ok::<Option<u64>, HostError>(Some(id)),
        r matches Ok(Some(got)) ==> holds_upload(old(h)@, rep, got),
        write is Err,
        r is Ok ==> second == Ok::<Option<u64>, HostError>(None),
        r is Err ==> second is Err && after@ == old(h)@,
        agree_but_at(old(h)@, after@, rep),
{
    if let Ok(Some(got)) = r {
        assert(holds_upload(old(h)@, rep, got));
    }
}

/// An upload that is dropped is gone, and its id is handed out where it was not finished.
pub proof fn law_dropped_uploads_are_aborted(
    h: &mut ComponentHandles,
    rep: u32,
    id: u64,
    r: Option<u64>,
)
    requires
        call_ensures(ComponentHandles::drop_uploader, (h, rep), r),
    ensures
        r == Some(id) <==> holds_upload(old(h)@, rep, id),
        !final(h)@.dom().contains(rep),
        agree_but_at(old(h)@, final(h)@, rep),
{
}

/// Whether ids are exactly those that a component left open.
pub open spec fn all_left_open(m: Held, watches: Seq<u64>, uploads: Seq<u64>, downloads: Seq<u64>) -> bool {
    &&& forall|id: u64| #[trigger] watches.contains(id) <==> exists|rep: u32| holds_watch(m, rep, id)
    &&& forall|id: u64| #[trigger] uploads.contains(id) <==> exists|rep: u32| holds_upload(m, rep, id)
    &&& forall|id: u64| #[trigger]
        downloads.contains(id) <==> exists|rep: u32| holds_download(m, rep, id)
}

proof fn lemma_left_open(m: Held, order: Seq<u32>)
    requires
        component_engine::listed(order, m),
    ensures
        all_left_open(
            m,
            component_engine::live_subscriptions(m, order),
            component_engine::live_uploads(m, order),
            component_engine::live_downloads(m, order),
        ),
{
    component_engine::law_nothing_outlives_a_component(m, order);
    assert forall|id: u64| #[trigger]
        component_engine::live_subscriptions(m, order).contains(id) <==> exists|rep: u32|
            holds_watch(m, rep, id) by {
        component_engine::law_nothing_is_released_twice(m, order, id);
        if exists|rep: u32| holds_watch(m, rep, id) {
            let rep = choose|rep: u32| holds_watch(m, rep, id);
            assert(component_engine::open_subscription(m, rep, id));
        }
        if component_engine::live_subscriptions(m, order).contains(id) {
            let rep = choose|rep: u32|
                order.contains(rep) && #[trigger] component_engine::open_subscription(m, rep, id);
            assert(holds_watch(m, rep, id));
        }
    }
    assert forall|id: u64| #[trigger]
        component_engine::live_uploads(m, order).contains(id) <==> exists|rep: u32|
            holds_upload(m, rep, id) by {
        component_engine::law_nothing_is_released_twice(m, order, id);
        if exists|rep: u32| holds_upload(m, rep, id) {
            let rep = choose|rep: u32| holds_upload(m, rep, id);
            assert(component_engine::open_upload(m, rep, id));
        }
        if component_engine::live_uploads(m, order).contains(id) {
            let rep = choose|rep: u32|
                order.contains(rep) && #[trigger] component_engine::open_upload(m, rep, id);
            assert(holds_upload(m, rep, id));
        }
    }
    assert forall|id: u64| #[trigger]
        component_engine::live_downloads(m, order).contains(id) <==> exists|rep: u32|
            holds_download(m, rep, id) by {
        component_engine::law_nothing_is_released_twice(m, order, id);
        if exists|rep: u32| holds_download(m, rep, id) {
            let rep = choose|rep: u32| holds_download(m, rep, id);
            assert(component_engine::open_download(m, rep, id));
        }
        if component_engine::live_downloads(m, order).contains(id) {
            let rep = choose|rep: u32|
                order.contains(rep) && #[trigger] component_engine::open_download(m, rep, id);
            assert(holds_download(m, rep, id));
        }
    }
}

/// When a component ends, exactly what it left open is handed out for release; after a listing none
/// of it counts as open any more, and after a release nothing is left.
pub proof fn law_what_a_component_left_open_is_released(
    listing: &mut ComponentHandles,
    ids: (Vec<u64>, Vec<u64>, Vec<u64>),
    releasing: &mut ComponentHandles,
    gone: (Vec<u64>, Vec<u64>, Vec<u64>),
)
    requires
        call_ensures(ComponentHandles::live_handle_ids, (listing,), ids),
        call_ensures(ComponentHandles::release_handles, (releasing,), gone),
    ensures
        all_left_open(old(listing)@, ids.0@, ids.1@, ids.2@),
        forall|rep: u32, id: u64|
            !#[trigger] holds_watch(final(listing)@, rep, id) && !#[trigger] holds_upload(
                final(listing)@,
                rep,
                id,
            ) && !#[trigger] holds_download(final(listing)@, rep, id),
        final(listing)@.dom() == old(listing)@.dom(),
        all_left_open(old(releasing)@, gone.0@, gone.1@, gone.2@),
        forall|rep: u32| !final(releasing)@.dom().contains(rep),
        final(releasing).room() == old(releasing).room(),
{
    lemma_left_open(old(listing)@, old(listing).order());
    lemma_left_open(old(releasing)@, old(releasing).order());
}

// ---- answers ----

/// Whether two records say the same.
pub open spec fn same_record(a: KvRecord, b: KvRecord) -> bool {
    a.key@ == b.key@ && a.value@ == b.value@ && a.lease_id == b.lease_id && a.version == b.version
}

/// Whether records say the same, one by one.
pub open spec fn same_records(a: Seq<KvRecord>, b: Seq<KvRecord>) -> bool {
    a.len() == b.len() && forall|i: int| 0 <= i < a.len() ==> same_record(#[trigger] a[i], b[i])
}

/// Whether two records that may be missing say the same.
pub open spec fn same_maybe(a: Option<KvRecord>, b: Option<KvRecord>) -> bool {
    match (a, b) {
        (Some(x), Some(y)) => same_record(x, y),
        (None, None) => true,
        _ => false,
    }
}

proof fn lemma_same_records(a: Seq<KvRecord>, b: Seq<KvRecord>)
    requires
        backend::views(a) == backend::views(b),
    ensures
        same_records(a, b),
{
    assert(backend::views(a).len() == a.len() && backend::views(b).len() == b.len());
    assert forall|i: int| 0 <= i < a.len() implies same_record(#[trigger] a[i], b[i]) by {
        assert(backend::views(a)[i] == a[i]@);
        assert(backend::views(b)[i] == b[i]@);
    }
}

/// A component sees a failure in its class, with the class's name and the message.
pub proof fn law_components_see_failures(e: SdkError, r: HostError)
    requires
        call_ensures(wit_err, (&e,), r),
    ensures
        e.code is NotFound ==> (r matches HostError::NotFound(m) && m@ == "ErrNotFound"@ + ": "@
            + e.message@),
        e.code is Unavailable ==> (r matches HostError::Unavailable(m) && m@ == "ErrUnavailable"@ + ": "@
            + e.message@),
        e.code is Forbidden ==> (r matches HostError::Forbidden(m) && m@ == "ErrForbidden"@ + ": "@
            + e.message@),
        e.code is ResourceExhausted ==> (r matches HostError::ResourceExhausted(m) && m@
            == "ErrResourceExhausted"@ + ": "@ + e.message@),
        e.code is InvalidArgument ==> (r matches HostError::InvalidArgument(m) && m@
            == "ErrInvalidArgument"@ + ": "@ + e.message@),
        e.code is Conflict ==> (r matches HostError::Conflict(m) && m@ == "ErrConflict"@ + ": "@
            + e.message@),
        e.code is Internal ==> (r matches HostError::Internal(m) && m@ == "ErrInternal"@ + ": "@
            + e.message@),
{
}

/// A component sees every record of an answer as it is, the count and the revision.
pub proof fn law_components_see_answers(
    rec: KvRecord,
    one: KvRecord,
    put: KvPutOut,
    p: WitPutOut,
    range: KvRangeOut,
    x: KvRangeOut,
    delete: KvDeleteOut,
    d: WitDeleteOut,
)
    requires
        call_ensures(wit_kv, (&rec,), one),
        call_ensures(wit_put_out, (&put,), p),
        call_ensures(wit_range_out, (&range,), x),
        call_ensures(wit_delete_out, (&delete,), d),
    ensures
        same_record(one, rec),
        p.revision == put.revision && same_maybe(p.prev, put.prev_kv),
        same_records(x.kvs@, range.kvs@) && x.count == range.count && x.revision == range.revision,
        d.deleted == delete.deleted && d.revision == delete.revision,
{
    lemma_same_records(x.kvs@, range.kvs@);
    assert(p@.prev_kv == put@.prev_kv);
    match (p.prev, put.prev_kv) {
        (Some(a), Some(b)) => {
            assert(a@ == b@);
        },
        _ => {},
    }
}

/// Whether a component sees the answer to an operation as it is.
pub open spec fn sees_op(r: WitOpOut, out: TxnOpOut) -> bool {
    match (r, out) {
        (WitOpOut::Put(p), TxnOpOut::Put(q)) => p.revision == q.revision && same_maybe(
            p.prev,
            q.prev_kv,
        ),
        (WitOpOut::Range(x), TxnOpOut::Range(y)) => same_records(x.kvs@, y.kvs@) && x.count == y.count
            && x.revision == y.revision,
        (WitOpOut::Delete(d), TxnOpOut::Delete(e)) => d.deleted == e.deleted && d.revision
            == e.revision,
        _ => false,
    }
}

proof fn lemma_sees_op(r: WitOpOut, out: TxnOpOut)
    requires
        r@ == crate::plugin::wit::op_out_view(out@),
    ensures
        sees_op(r, out),
{
    match (r, out) {
        (WitOpOut::Put(p), TxnOpOut::Put(q)) => {
            assert(p@ == q@);
            match (p.prev, q.prev_kv) {
                (Some(a), Some(b)) => {
                    assert(a@ == b@);
                },
                _ => {},
            }
        },
        (WitOpOut::Range(x), TxnOpOut::Range(y)) => {
            assert(x@ == y@);
            lemma_same_records(x.kvs@, y.kvs@);
        },
        _ => {},
    }
}

/// A component sees of a transaction whether it succeeded, the revision, and the answer to every
/// operation in its place.
pub proof fn law_components_see_transactions(op: TxnOpOut, one: WitOpOut, out: TxnOut, r: WitTxnOut)
    requires
        call_ensures(wit_txn_op_out, (&op,), one),
        call_ensures(wit_txn_out, (&out,), r),
    ensures
        sees_op(one, op),
        r.succeeded == out.succeeded && r.revision == out.revision,
        r.responses@.len() == out.responses@.len(),
        forall|i: int|
            0 <= i < out.responses@.len() ==> sees_op(#[trigger] r.responses@[i], out.responses@[i]),
{
    lemma_sees_op(one, op);
    let seen = backend::views(r.responses@);
    assert(seen.len() == r.responses@.len());
    assert forall|i: int| 0 <= i < out.responses@.len() implies sees_op(
        #[trigger] r.responses@[i],
        out.responses@[i],
    ) by {
        assert(seen[i] == r.responses@[i]@);
        lemma_sees_op(r.responses@[i], out.responses@[i]);
    }
}

/// A component sees an object as it is, one that it uploaded as stored, and none that is not there or
/// not complete.
pub proof fn law_components_see_objects(
    stat: ObjectStatDto,
    one: ObjectStatDto,
    bucket: String,
    object: Vec<u8>,
    put: ObjectPutOut,
    uploaded: ObjectStatDto,
    maybe: Option<ObjectStatDto>,
    visible: Option<ObjectStatDto>,
)
    requires
        call_ensures(wit_object_stat, (&stat,), one),
        call_ensures(uploaded_stat, (bucket, object, &put), uploaded),
        call_ensures(visible_stat, (maybe,), visible),
    ensures
        one.bucket@ == stat.bucket@ && one.object_id@ == stat.object_id@ && one.size == stat.size
            && one.chunks == stat.chunks && one.revision == stat.revision && one.exists == stat.exists
            && one.committed == stat.committed,
        uploaded.bucket@ == bucket@ && uploaded.object_id@ == object@ && uploaded.size == put.size
            && uploaded.chunks == put.chunks && uploaded.revision == put.revision && uploaded.exists
            && uploaded.committed,
        visible is Some <==> (maybe matches Some(s) && s.exists && s.committed),
        visible is Some ==> visible == maybe,
{
}

/// A component sees a change as it is.
pub proof fn law_components_see_changes(ev: WatchEventDto, r: WatchEventDto)
    requires
        call_ensures(wit_watch_event, (&ev,), r),
    ensures
        r.kind == ev.kind && r.revision == ev.revision,
        same_records(r.kvs@, ev.kvs@),
        same_maybe(r.prev_kv, ev.prev_kv),
{
    assert(r@ == ev@);
    lemma_same_records(r.kvs@, ev.kvs@);
    match (r.prev_kv, ev.prev_kv) {
        (Some(a), Some(b)) => {
            assert(a@ == b@);
        },
        _ => {},
    }
}

/// A component sees a granted lease by its number and with the time to live that it asked for, and
/// its own limits.
pub proof fn law_components_see_leases_and_limits(
    ttl: i64,
    granted: SdkResult<i64>,
    r: Result<WitLease, HostError>,
    limits: PluginLimits,
    l: WitLimits,
)
    requires
        call_ensures(wit_lease, (ttl, granted), r),
        call_ensures(limits_of, (&limits,), l),
    ensures
        granted matches Ok(id) ==> r matches Ok(lease) && lease.id == id && lease.ttl == ttl,
        granted is Err ==> r is Err,
        l.max_exec_ms == limits.max_exec_ms && l.max_memory_mb == limits.max_memory_mb
            && l.max_objects == limits.max_objects,
{
}

/// A component finds in its environment what stands there under the name.
pub proof fn law_components_look_up_their_environment(
    env: NameMap<String>,
    key: &str,
    r: Result<String, HostError>,
)
    requires
        call_ensures(env_of, (&env, key), r),
    ensures
        r is Ok <==> env@.dom().contains(key@),
        r matches Ok(v) ==> v@ == env@[key@]@,
        r matches Err(e) ==> (e matches HostError::NotFound(m) && m@ == "env '"@ + key@
            + "' is not set"@),
{
}

// ---- requests ----

/// A component's write and its delete are what it says.
pub proof fn law_components_write_and_delete_what_they_say(
    key: Vec<u8>,
    value: Vec<u8>,
    lease: i64,
    prev: bool,
    id: Option<String>,
    put: KvPut,
    end: Vec<u8>,
    delete: KvDelete,
    bytes: Vec<u8>,
)
    requires
        call_ensures(put_of, (key, value, lease, prev, id), put),
        call_ensures(delete_of, (key, end, prev), delete),
        call_ensures(request_id_of, (id,), bytes),
    ensures
        put.key@ == key@ && put.value@ == value@ && put.lease_id == lease && put.prev_kv == prev,
        put.request_id@ == bytes@,
        id matches Some(s) ==> bytes@ == encode_utf8(s@),
        id is None ==> bytes@.len() == 0,
        delete.key@ == key@ && delete.range_end@ == end@ && delete.prev_kv == prev
            && delete.request_id@.len() == 0,
{
}

/// Whether a condition is the one that a component names.
pub open spec fn means_compare(c: WitCompare, r: Compare) -> bool {
    r.op == c.op && r.target == c.target && r.key@ == c.key@ && r.int_value == c.int_value
        && r.bytes_value@ == c.bytes_value@
}

/// Whether an operation is the one that a component names.
pub open spec fn means_op(op: WitOp, r: TxnOp) -> bool {
    match (op, r) {
        (WitOp::Put { key, value, lease_id, prev_kv }, TxnOp::Put(p)) => p.key@ == key@ && p.value@
            == value@ && p.lease_id == lease_id && p.prev_kv == prev_kv && p.request_id@.len() == 0,
        (WitOp::Delete { key, range_end, prev_kv }, TxnOp::Delete(d)) => d.key@ == key@
            && d.range_end@ == range_end@ && d.prev_kv == prev_kv && d.request_id@.len() == 0,
        (
            WitOp::Range { key, range_end, limit, revision, keys_only, count_only },
            TxnOp::Range(x),
        ) => x.key@ == key@ && x.range_end@ == range_end@ && x.limit == limit && x.revision == revision
            && x.keys_only == keys_only && x.count_only == count_only,
        _ => false,
    }
}

/// A component's transaction has every condition and every operation of both branches in its place,
/// and its request's identifier.
pub proof fn law_components_transact_what_they_say(op: WitOp, one: TxnOp, txn: WitTxn, r: TxnReq)
    requires
        call_ensures(txn_op_from_wit, (&op,), one),
        call_ensures(txn_from_wit, (txn,), r),
    ensures
        means_op(op, one),
        r.compares@.len() == txn.compares@.len(),
        forall|i: int|
            0 <= i < txn.compares@.len() ==> means_compare(txn.compares@[i], #[trigger] r.compares@[i]),
        r.success@.len() == txn.success@.len(),
        forall|i: int|
            0 <= i < txn.success@.len() ==> means_op(txn.success@[i], #[trigger] r.success@[i]),
        r.failure@.len() == txn.failure@.len(),
        forall|i: int|
            0 <= i < txn.failure@.len() ==> means_op(txn.failure@[i], #[trigger] r.failure@[i]),
        txn.request_id matches Some(s) ==> r.request_id@ == encode_utf8(s@),
        txn.request_id is None ==> r.request_id@.len() == 0,
{
    assert(r@.compares.len() == r.compares@.len());
    assert(r@.success.len() == r.success@.len());
    assert(r@.failure.len() == r.failure@.len());
    assert forall|i: int| 0 <= i < txn.compares@.len() implies means_compare(
        txn.compares@[i],
        #[trigger] r.compares@[i],
    ) by {
        assert(r@.compares[i] == r.compares@[i]@);
    }
    assert forall|i: int| 0 <= i < txn.success@.len() implies means_op(
        txn.success@[i],
        #[trigger] r.success@[i],
    ) by {
        assert(r@.success[i] == r.success@[i]@);
    }
    assert forall|i: int| 0 <= i < txn.failure@.len() implies means_op(
        txn.failure@[i],
        #[trigger] r.failure@[i],
    ) by {
        assert(r@.failure[i] == r.failure@[i]@);
    }
}

} // verus!
