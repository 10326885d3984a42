use coord_agent::core_error::{
    CoordErrorCode, CoreError, CoreErrorKind, ERROR_CODE_TRAILER,
};
use coord_agent::counters::Count;
use coord_agent::plugin::sdk::backend::{KvDelete, KvPut, KvRange};
use coord_agent::plugin::sdk::wire::{
    CompareResult, DeleteRequest, KeyValue, ObjectStat, PutRequest, RangeRequest, RangeResponse,
    RequestOp, Target, WatchEvent, WireCompare,
};
use coord_agent::proxy::error::ProxyError;
use coord_agent::proxy::kv::{
    cache_fills, cached_answer, cluster_read, deleted_read_limit, may_use_cache, range_answer,
    txn_answer, txn_invalidations, DeletePhase, DeleteRun, DeleteStep, PutPhase, PutRun, PutStep,
};
use coord_agent::proxy::storage::{
    check_storage, delete_object_answer, put_object_answer, replay, stat_answer, upload_room,
    PutMeta, PutPart, Upload, STORAGE_PROXY_CHUNK, STORAGE_PROXY_MAX_BUFFER,
};
use coord_agent::proxy::streams::{
    keep_alive_answer, lease_answer, maintenance_route, open_watch, revoke_answer, FirstFrame,
    MaintenanceCall, MaintenanceRoute, WatchCreate, WatchForward, WatchOpening, WatchTask,
    PLACEHOLDER_SEAL_STATUS,
};
use coord_agent::status::StatusCode;

fn failure() -> CoreError {
    CoreError::new(CoreErrorKind::ClusterUnavailable("down".into()), "cluster unavailable: down")
}

fn put(prev_kv: bool) -> PutRequest {
    PutRequest {
        key: b"/k".to_vec(),
        value: b"v".to_vec(),
        lease_id: 0,
        prev_kv,
        request_id: vec![],
    }
}

fn range() -> RangeRequest {
    RangeRequest {
        key: b"/k".to_vec(),
        range_end: vec![],
        limit: 0,
        revision: 0,
        keys_only: false,
        count_only: false,
    }
}

fn delete(prev_kv: bool, range_end: &[u8]) -> DeleteRequest {
    DeleteRequest {
        key: b"/k".to_vec(),
        range_end: range_end.to_vec(),
        prev_kv,
        request_id: vec![],
    }
}

fn kv(key: &[u8], value: &[u8]) -> KeyValue {
    KeyValue {
        key: key.to_vec(),
        value: value.to_vec(),
        create_revision: 0,
        mod_revision: 0,
        version: 0,
        lease_id: 0,
    }
}

fn code(e: &ProxyError) -> Option<CoordErrorCode> {
    e.code
}

#[test]
fn writes_reach_the_cluster_before_the_cache() {
    let run = PutRun::new(true, &put(true));
    assert_eq!(run.phase(), PutPhase::Reading);
    let run = run.read(Ok(vec![(b"/k".to_vec(), b"old".to_vec(), 4)]));
    assert_eq!(run.phase(), PutPhase::Writing);
    let run = run.written(Ok(12));
    assert_eq!(run.phase(), PutPhase::Invalidating);
    let answer = run.invalidated().into_answer().ok().unwrap();
    assert_eq!(answer.revision, 12);
    assert_eq!(answer.prev_kv.unwrap().value, b"old");

    let failed = PutRun::new(true, &put(false)).written(Err(failure()));
    assert_eq!(failed.phase(), PutPhase::Done);
    let e = failed.into_answer().err().unwrap();
    assert!(matches!(e.status.code, StatusCode::Unavailable));
    assert_eq!(code(&e), Some(CoordErrorCode::Unavailable));

    let alone = PutRun::new(false, &put(true));
    assert_eq!(alone.phase(), PutPhase::Done);
    assert_eq!(alone.into_answer().ok().unwrap().revision, 1);
}

fn latest(key: &[u8], range_end: &[u8], limit: i64) -> KvRange {
    KvRange {
        key: key.to_vec(),
        range_end: range_end.to_vec(),
        limit,
        revision: 0,
        keys_only: false,
        count_only: false,
    }
}

#[test]
fn writes_ask_for_what_the_request_says() {
    let req = PutRequest { lease_id: 9, request_id: b"r".to_vec(), ..put(true) };
    let run = PutRun::new(true, &req);
    assert_eq!(run.step(&req), PutStep::Read(latest(b"/k", b"", 1)));
    let run = run.read(Ok(vec![]));
    let write = KvPut {
        key: b"/k".to_vec(),
        value: b"v".to_vec(),
        lease_id: 9,
        prev_kv: false,
        request_id: b"r".to_vec(),
    };
    assert_eq!(run.step(&req), PutStep::Write(write));
    let run = run.written(Ok(3));
    assert_eq!(run.step(&req), PutStep::Invalidate(b"/k".to_vec()));
    assert_eq!(run.invalidated().step(&req), PutStep::Answer);
    let failed = PutRun::new(true, &req).read(Err(failure()));
    assert_eq!(failed.step(&req), PutStep::Answer);
}

#[test]
fn deletes_ask_for_what_the_request_says() {
    for (range_end, limit) in [(b"".as_slice(), 1), (b"/z".as_slice(), 0)] {
        let req = DeleteRequest { request_id: b"r".to_vec(), ..delete(true, range_end) };
        let run = DeleteRun::new(true, &req);
        assert_eq!(run.step(&req), DeleteStep::Read(latest(b"/k", range_end, limit)));
        let run = run.read(Ok(vec![]));
        assert_eq!(run.step(&req), DeleteStep::Invalidate(b"/k".to_vec()));
        let run = run.invalidated();
        let wanted = KvDelete {
            key: b"/k".to_vec(),
            range_end: range_end.to_vec(),
            prev_kv: false,
            request_id: b"r".to_vec(),
        };
        assert_eq!(run.step(&req), DeleteStep::Delete(wanted));
        assert_eq!(run.deleted(Ok((1, 2))).step(&req), DeleteStep::Answer);
    }
    let req = delete(false, b"");
    assert_eq!(DeleteRun::new(true, &req).step(&req), DeleteStep::Invalidate(b"/k".to_vec()));
}

#[test]
fn reads_are_passed_on_as_they_came() {
    let req = RangeRequest { limit: 5, revision: 6, keys_only: true, ..range() };
    let read = cluster_read(&req);
    assert_eq!((read.limit, read.revision, read.keys_only, read.count_only), (5, 6, true, false));
    assert_eq!((read.key, read.range_end), (b"/k".to_vec(), vec![]));
}

#[test]
fn the_cache_answers_only_latest_single_keys() {
    assert!(may_use_cache(&range()));
    assert!(!may_use_cache(&RangeRequest { revision: 3, ..range() }));
    assert!(!may_use_cache(&RangeRequest { count_only: true, ..range() }));
    assert!(!may_use_cache(&RangeRequest { range_end: b"/z".to_vec(), ..range() }));
    let hit = cached_answer(true, true, &range(), Some(b"v".to_vec())).unwrap();
    assert_eq!(hit.kvs[0].value, b"v");
    assert_eq!(hit.count, 1);
    assert!(cached_answer(true, true, &range(), None).is_none());
    assert!(cached_answer(true, false, &range(), Some(b"v".to_vec())).is_none());
}

#[test]
fn reads_fill_the_cache_with_values() {
    let rows = vec![
        (b"/a".to_vec(), b"1".to_vec(), 0, 1),
        (b"/b".to_vec(), vec![], 0, 1),
    ];
    let answer = range_answer(&range(), Some(Ok((rows, 2, 7)))).ok().unwrap();
    assert_eq!((answer.count, answer.revision), (2, 7));
    assert_eq!(cache_fills(&range(), &answer), vec![(b"/a".to_vec(), b"1".to_vec())]);
    assert!(cache_fills(&RangeRequest { keys_only: true, ..range() }, &answer).is_empty());
    assert!(cache_fills(&RangeRequest { revision: 3, ..range() }, &answer).is_empty());
    assert!(cache_fills(&RangeRequest { range_end: b"/z".to_vec(), ..range() }, &answer).is_empty());
    assert!(cache_fills(&RangeRequest { count_only: true, ..range() }, &answer).is_empty());
    let alone = range_answer(&range(), None).ok().unwrap();
    assert_eq!((alone.count, alone.kvs.len()), (0, 0));
    assert!(range_answer(&range(), Some(Err(failure()))).is_err());
    let rows = vec![(b"/a".to_vec(), b"1".to_vec(), 0, 1)];
    let keys = RangeRequest { keys_only: true, ..range() };
    let answer: RangeResponse = range_answer(&keys, Some(Ok((rows, 1, 7)))).ok().unwrap();
    assert!(answer.kvs[0].value.is_empty());
}

#[test]
fn deletes_reach_the_cache_before_the_cluster() {
    let run = DeleteRun::new(true, &delete(true, b""));
    assert_eq!(run.phase(), DeletePhase::Reading);
    let run = run.read(Ok(vec![(b"/k".to_vec(), b"old".to_vec(), 0)]));
    assert_eq!(run.phase(), DeletePhase::Invalidating);
    let run = run.invalidated();
    assert_eq!(run.phase(), DeletePhase::Deleting);
    let answer = run.deleted(Ok((1, 9))).into_answer().ok().unwrap();
    assert_eq!((answer.deleted, answer.revision, answer.prev_kvs.len()), (1, 9, 1));
    let run = DeleteRun::new(true, &delete(false, b"")).invalidated().deleted(Err(failure()));
    assert!(run.into_answer().is_err());
    assert_eq!(deleted_read_limit(&delete(true, b"")), 1);
    assert_eq!(deleted_read_limit(&delete(true, b"/z")), 0);
}

#[test]
fn transactions_leave_no_stale_key() {
    let compares = vec![WireCompare {
        result: CompareResult::Equal,
        target: Target::Version,
        key: b"/c".to_vec(),
        target_value: None,
    }];
    let success = vec![Some(RequestOp::RequestPut(PutRequest { key: b"/p".to_vec(), ..put(false) })), None];
    let failure = vec![
        Some(RequestOp::RequestDelete(DeleteRequest { key: b"/d".to_vec(), ..delete(false, b"") })),
        Some(RequestOp::RequestRange(range())),
    ];
    assert_eq!(
        txn_invalidations(&compares, &success, &failure),
        vec![b"/c".to_vec(), b"/p".to_vec(), b"/d".to_vec()]
    );
}

#[test]
fn leases_are_answered() {
    let g = lease_answer(30, 0, None).ok().unwrap();
    assert_eq!((g.id, g.ttl), (1, 30));
    assert_eq!(lease_answer(30, 5, None).ok().unwrap().id, 5);
    assert_eq!(lease_answer(30, 5, Some(Ok(8))).ok().unwrap().id, 8);
    assert!(lease_answer(30, 5, Some(Err(failure()))).is_err());
    assert!(revoke_answer(Some(Ok(()))).1);
    assert!(!revoke_answer(None).1);
    let (answer, goes_on) = keep_alive_answer(5, Some(Ok(20)));
    assert_eq!(answer.unwrap().ok().unwrap().ttl, 20);
    assert!(goes_on);
    let (answer, goes_on) = keep_alive_answer(5, Some(Err(failure())));
    assert!(answer.unwrap().is_err());
    assert!(!goes_on);
    let (answer, goes_on) = keep_alive_answer(5, None);
    assert!(answer.is_none());
    assert!(!goes_on);
}

fn create(key: &[u8]) -> FirstFrame {
    FirstFrame::Create(WatchCreate {
        key: key.to_vec(),
        range_end: vec![],
        start_revision: 3,
    })
}

const DENIED: &str = "capability 'data:watch:subscribe' does not cover the range";

#[test]
fn watch_handler_denies_out_of_scope_prefix() {
    match open_watch(false, create(b"/other/secret"), Err(DENIED.into())) {
        WatchOpening::Refuse(e) => {
            assert!(matches!(e.status.code, StatusCode::PermissionDenied));
            assert_eq!(code(&e).map(|c| c.as_str()), Some("PERMISSION_DENIED"));
            assert!(e.status.message.contains("data:watch:subscribe"));
        }
        _ => panic!("a watch out of scope must be refused"),
    }
}

#[test]
fn watch_handler_allows_in_scope_prefix() {
    match open_watch(true, create(b"/app/counter/"), Ok(())) {
        WatchOpening::Subscribe { prefix, start_revision } => {
            assert_eq!(prefix, b"/app/counter/");
            assert_eq!(start_revision, 3);
        }
        _ => panic!("a watch in scope must be allowed"),
    }
    assert!(matches!(open_watch(false, create(b"/app/counter/"), Ok(())), WatchOpening::Idle));
}

#[test]
fn watch_handler_denies_sibling_prefix_not_covered_by_scope() {
    let opening = open_watch(true, create(b"/app/counter"), Err(DENIED.into()));
    assert!(matches!(opening, WatchOpening::Refuse(_)));
}

#[test]
fn watch_handler_allows_when_no_grant_snapshot() {
    assert!(matches!(open_watch(false, create(b"/anything"), Ok(())), WatchOpening::Idle));
}

#[test]
fn watch_handler_rejects_non_create_first_frame() {
    match open_watch(false, FirstFrame::Other, Ok(())) {
        WatchOpening::Refuse(e) => {
            assert!(matches!(e.status.code, StatusCode::InvalidArgument));
        }
        _ => panic!("only a creation opens a watch"),
    }
    match open_watch(true, FirstFrame::Failed("reset".into()), Ok(())) {
        WatchOpening::Refuse(e) => assert_eq!(e.status.message, "watch stream error: reset"),
        _ => panic!("refused"),
    }
    assert!(matches!(open_watch(true, FirstFrame::End, Ok(())), WatchOpening::Empty));
}

#[test]
fn transactions_are_answered_by_the_cluster() {
    let (succeeded, revision, responses) = txn_answer(None).ok().unwrap();
    assert!(!succeeded);
    assert_eq!(revision, 0);
    assert!(responses.is_empty());
    let (succeeded, revision, _) = txn_answer(Some(Ok((true, 9, vec![None])))).ok().unwrap();
    assert!(succeeded);
    assert_eq!(revision, 9);
    let e = txn_answer(Some(Err(failure()))).err().unwrap();
    assert_eq!(code(&e), Some(CoordErrorCode::Unavailable));
}

#[test]
fn watch_events_are_forwarded() {
    let event = WatchEvent { kind: None, kvs: vec![kv(b"/k", b"v")], prev_kv: None, revision: 2 };
    let mut task = WatchTask::new(b"/app/".to_vec());
    let (forward, count) = task.forward(Some(Ok(event)));
    match forward {
        WatchForward::Deliver { stale, event } => {
            assert_eq!(stale, b"/app/");
            assert_eq!(event.revision, 2);
        }
        _ => panic!("an event is passed on"),
    }
    assert!(count.is_none());
    let (forward, count) = task.forward(Some(Err(failure())));
    assert!(matches!(forward, WatchForward::Fail(_)));
    assert_eq!(count, Some(Count::WatchUnsubscribed));
    assert!(!task.is_open());
    let late = WatchEvent { kind: None, kvs: vec![], prev_kv: None, revision: 3 };
    let (forward, count) = task.forward(Some(Ok(late)));
    assert!(matches!(forward, WatchForward::End));
    assert!(count.is_none());
    let (forward, count) = WatchTask::new(vec![]).forward(None);
    assert!(matches!(forward, WatchForward::End));
    assert_eq!(count, Some(Count::WatchUnsubscribed));
}

#[test]
fn subscribers_are_counted() {
    for connected in [true, false] {
        let opening = open_watch(connected, create(b"/app/"), Ok(()));
        assert_eq!(opening.count(), Some(Count::WatchSubscribed));
    }
    assert!(open_watch(true, create(b"/app/"), Err(DENIED.into())).count().is_none());
    assert!(open_watch(true, FirstFrame::End, Ok(())).count().is_none());
    assert!(open_watch(true, FirstFrame::Other, Ok(())).count().is_none());
    let mut task = WatchTask::new(b"/app/".to_vec());
    assert_eq!(task.leave(), Some(Count::WatchUnsubscribed));
    assert_eq!(task.leave(), None);
}

#[test]
fn codes_have_names() {
    assert_eq!(ERROR_CODE_TRAILER, "x-coord-error-code");
    assert_eq!(CoordErrorCode::NotLeader.as_str(), "NOT_LEADER");
    assert_eq!(CoordErrorCode::TxnCasFailed.as_str(), "TXN_CAS_FAILED");
    assert_eq!(CoordErrorCode::NotFound.as_str(), "NOT_FOUND");
}

#[test]
fn maintenance_is_forwarded_or_refused() {
    assert!(matches!(maintenance_route(true, MaintenanceCall::Status), MaintenanceRoute::Forward));
    match maintenance_route(false, MaintenanceCall::Status) {
        MaintenanceRoute::Placeholder(status) => {
            assert_eq!((status.revision, status.raft_index, status.raft_term), (0, 0, 0));
            assert_eq!(status.raft_leader, "");
            assert_eq!(status.seal_status, PLACEHOLDER_SEAL_STATUS);
            assert_eq!(status.seal_status, "unsealed");
        }
        _ => panic!("a placeholder is answered"),
    }
    assert!(matches!(maintenance_route(true, MaintenanceCall::Snapshot), MaintenanceRoute::Empty));
    match maintenance_route(true, MaintenanceCall::Compact) {
        MaintenanceRoute::Refuse(e) => {
            assert!(matches!(e.status.code, StatusCode::Unimplemented));
            assert_eq!(e.status.message, "compact not available via agent proxy");
        }
        _ => panic!("refused"),
    }
    assert_eq!(PLACEHOLDER_SEAL_STATUS, "unsealed");
}

fn meta(bucket: &str) -> PutPart {
    PutPart::Meta(PutMeta { bucket: bucket.into(), object_id: b"o".to_vec(), total_size: 3 })
}

fn refused<T>(r: Result<T, ProxyError>) -> String {
    match r {
        Ok(_) => panic!("a refusal was expected"),
        Err(e) => e.status.message,
    }
}

#[test]
fn uploads_are_taken_whole_or_not() {
    let up = Upload::begin(Some(meta("b"))).ok().unwrap();
    let up = up.collect(PutPart::Chunk(vec![1, 2])).ok().unwrap();
    let up = up.collect(PutPart::Chunk(vec![3])).ok().unwrap();
    let (m, data) = up.finish().ok().unwrap();
    assert_eq!(m.bucket, "b");
    assert_eq!(data, vec![1, 2, 3]);
    assert_eq!(refused(Upload::begin(None)), "empty Put stream");
    assert_eq!(refused(Upload::begin(Some(meta("")))), "bucket must not be empty");
    assert_eq!(
        refused(Upload::begin(Some(PutPart::Chunk(vec![1])))),
        "first PutRequest message must carry meta"
    );
    let up = || Upload::begin(Some(meta("b"))).ok().unwrap();
    assert_eq!(
        refused(up().collect(meta("b"))),
        "meta must only appear as the first message"
    );
    assert_eq!(refused(up().collect(PutPart::Blank)), "empty PutRequest message");
    assert_eq!(refused(up().finish()), "object must contain at least one chunk");
    assert_eq!(
        refused(check_storage(false)),
        "object storage proxy unavailable: agent not connected to a cluster"
    );
    assert!(check_storage(true).is_ok());
    assert_eq!(upload_room(-1), 0);
    assert_eq!(upload_room(77), 77);
    assert_eq!(upload_room(i64::MAX), STORAGE_PROXY_MAX_BUFFER);
}

#[test]
fn oversized_uploads_are_refused() {
    let up = Upload::begin(Some(meta("b"))).ok().unwrap();
    let up = up.collect(PutPart::Chunk(vec![0; STORAGE_PROXY_MAX_BUFFER])).ok().unwrap();
    assert_eq!(
        refused(up.collect(PutPart::Chunk(vec![1]))),
        "object exceeds agent proxy buffer limit (256MiB)"
    );
}

#[test]
fn replay_gives_back_the_object() {
    let data: Vec<u8> = (0..STORAGE_PROXY_CHUNK + 5).map(|i| i as u8).collect();
    let chunks = replay(data.clone());
    assert_eq!(chunks.len(), 2);
    assert_eq!(chunks[0].len(), STORAGE_PROXY_CHUNK);
    assert_eq!(chunks.concat(), data);
}

#[test]
fn object_calls_are_answered() {
    let out = put_object_answer(Ok((5, 100, 2))).ok().unwrap();
    assert_eq!((out.revision, out.size, out.chunks), (5, 100, 2));
    assert!(put_object_answer(Err(failure())).is_err());
    assert_eq!(
        refused(stat_answer("b", &[b'o', 0xff], Ok(None))),
        "object b/o\u{fffd} not found"
    );
    let stat = ObjectStat {
        bucket: "b".into(),
        object_id: b"o".to_vec(),
        size: 1,
        chunks: 1,
        revision: 1,
        exists: true,
        committed: true,
    };
    assert_eq!(stat_answer("b", b"o", Ok(Some(stat))).ok().unwrap().size, 1);
    assert_eq!(delete_object_answer(Ok((true, 6))).ok().unwrap(), (true, 6));
    assert!(delete_object_answer(Err(failure())).is_err());
}
