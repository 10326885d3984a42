use coord_agent::core_error::{
    core_error_status, map_core_error, CoordErrorCode, CoreError, CoreErrorKind,
};
use coord_agent::plugin::hooks::{CallCtx, CallDecision, CallHook, CallOp, CallOutcome, HookRegistry};
use coord_agent::plugin::manifest::PluginCapability;
use coord_agent::plugin::sdk::backend::{
    Compare, CompareOp, CompareTarget, KvDelete, KvPut, KvPutOut, KvRange, KvRangeOut, KvRecord,
    SdkErrorCode, SdkResult, TxnOp, TxnOpOut, TxnOut, TxnReq, WatchEventKind, CAP_KV_READ,
    CAP_KV_WRITE, CAP_LEASE_GRANT, CAP_TXN_EXECUTE,
};
use coord_agent::plugin::sdk::coord::{
    check_read_length, delete_outcome, deleted_read, previous_read, previous_record, put_outcome,
    range_outcome, upload_finished, upload_length, upload_outcome, watch_outcome, CoordSdkBackend,
    ReadBuffer, UploadLength,
};
use coord_agent::plugin::sdk::facade::{
    after_call, before_call, create_outcome, create_request, get_outcome, get_request, CallPlan,
    PluginSdk,
};
use coord_agent::plugin::sdk::wire::{
    from_proto_response, stat_from_proto, to_proto_compare, to_proto_op, txn_messages, txn_outcome,
    watch_event_to_dto, CompareResult, KeyValue, ObjectStat, PutResponse, RequestOp, ResponseOp,
    Target, TargetValue, WatchEvent,
};
use coord_agent::status::StatusCode;
use std::sync::{Arc, Mutex};

fn cap(id: &str, scope: &str) -> PluginCapability {
    PluginCapability { id: id.into(), scope: scope.into() }
}

fn put(key: &str) -> KvPut {
    KvPut {
        key: key.as_bytes().to_vec(),
        value: b"v".to_vec(),
        lease_id: 0,
        prev_kv: false,
        request_id: Vec::new(),
    }
}

/// Decides on a plan with scopes that are prefixes.
fn authorize(sdk: &PluginSdk, caps: &[PluginCapability], plan: &CallPlan) -> SdkResult<()> {
    let matched: Vec<Vec<bool>> = plan
        .accesses
        .iter()
        .map(|access| {
            caps.iter()
                .map(|c| {
                    let scope = c.scope.as_str();
                    !scope.is_empty() && access.resource.starts_with(scope)
                })
                .collect()
        })
        .collect();
    sdk.authorize(plan, &matched)
}

#[test]
fn facade_enforces_scope_before_backend() {
    let caps = [cap(CAP_KV_WRITE, "/app/counter/")];
    let sdk = PluginSdk::new("p", &caps);
    assert!(authorize(&sdk, &caps, &sdk.kv_put(&put("/app/counter/a"))).is_ok());
    let err = authorize(&sdk, &caps, &sdk.kv_put(&put("/app/other/a"))).unwrap_err();
    assert_eq!(err.code, SdkErrorCode::Forbidden);
    assert_eq!(sdk.plugin(), "p");
    assert_eq!(sdk.scope().len(), 1);
}

#[test]
fn facade_rejects_txn_when_any_branch_out_of_scope() {
    let caps = [cap(CAP_KV_READ, "/app/counter/"), cap(CAP_KV_WRITE, "/app/counter/")];
    let sdk = PluginSdk::new("p", &caps);
    let req = TxnReq {
        compares: vec![],
        success: vec![TxnOp::Put(put("/app/counter/a"))],
        failure: vec![TxnOp::Put(put("/app/other/b"))],
        request_id: Vec::new(),
    };
    let err = authorize(&sdk, &caps, &sdk.txn(&req)).unwrap_err();
    assert_eq!(err.code, SdkErrorCode::Forbidden);
}

#[test]
fn txn_requires_txn_execute_capability() {
    let caps = [
        cap(CAP_KV_READ, "/app/"),
        cap(CAP_KV_WRITE, "/app/"),
        cap(CAP_TXN_EXECUTE, ""),
    ];
    let req = TxnReq {
        compares: vec![],
        success: vec![TxnOp::Put(put("/app/counter/a"))],
        failure: vec![],
        request_id: Vec::new(),
    };
    let sdk = PluginSdk::new("p", &caps);
    assert!(authorize(&sdk, &caps, &sdk.txn(&req)).is_ok());

    let fewer = [cap(CAP_KV_READ, "/app/"), cap(CAP_KV_WRITE, "/app/")];
    let sdk = PluginSdk::new("p", &fewer);
    let err = authorize(&sdk, &fewer, &sdk.txn(&req)).unwrap_err();
    assert_eq!(err.code, SdkErrorCode::Forbidden);
}

#[test]
fn prev_kv_put_requires_read_capability() {
    let caps = [cap(CAP_KV_WRITE, "/app/counter/")];
    let sdk = PluginSdk::new("p", &caps);
    let mut req = put("/app/counter/a");
    req.prev_kv = true;
    let err = authorize(&sdk, &caps, &sdk.kv_put(&req)).unwrap_err();
    assert_eq!(err.code, SdkErrorCode::Forbidden);
    assert!(err.message.contains("data:kv:read"));
}

#[test]
fn lease_capability_with_nonempty_scope_fails_closed() {
    let caps = [cap(CAP_LEASE_GRANT, "/lease/")];
    let sdk = PluginSdk::new("p", &caps);
    assert!(authorize(&sdk, &caps, &sdk.lease_grant(30, 0)).is_err());
}

#[test]
fn lease_grant_requires_capability_and_positive_ttl() {
    let caps = [cap(CAP_LEASE_GRANT, "")];
    let sdk = PluginSdk::new("p", &caps);
    assert!(authorize(&sdk, &caps, &sdk.lease_grant(30, 0)).is_ok());
    let err = authorize(&sdk, &caps, &sdk.lease_grant(0, 0)).unwrap_err();
    assert_eq!(err.code, SdkErrorCode::InvalidArgument);
    let err = authorize(&sdk, &caps, &sdk.lease_revoke(42)).unwrap_err();
    assert_eq!(err.code, SdkErrorCode::Forbidden);
}

#[test]
fn keys_that_are_not_text_are_refused() {
    let caps = [cap(CAP_KV_WRITE, "")];
    let sdk = PluginSdk::new("p", &caps);
    let mut req = put("x");
    req.key = vec![0xff];
    let err = authorize(&sdk, &caps, &sdk.kv_put(&req)).unwrap_err();
    assert_eq!(err.code, SdkErrorCode::Forbidden);
    assert!(err.message.contains("non-UTF-8"), "{}", err.message);
}

#[test]
fn a_single_key_is_read_as_a_range() {
    let req = get_request(b"/k".to_vec());
    assert_eq!(req.key, b"/k");
    assert_eq!(req.limit, 1);
    let record = KvRecord { key: b"/k".to_vec(), value: b"v".to_vec(), lease_id: 0, version: 1 };
    let found = KvRangeOut { kvs: vec![record], count: 1, revision: 3 };
    assert_eq!(get_outcome(found).ok(), Some(b"v".to_vec()));
    let none = KvRangeOut { kvs: vec![], count: 0, revision: 3 };
    let err = get_outcome(none).unwrap_err();
    assert_eq!(err.code, SdkErrorCode::NotFound);
    assert_eq!(err.message, "key not found");
}

#[test]
fn creating_a_key_is_a_transaction_on_its_absence() {
    let req = create_request(b"/k".to_vec(), b"v".to_vec(), 7);
    assert_eq!(req.compares.len(), 1);
    assert_eq!(req.compares[0].op, CompareOp::Equal);
    assert_eq!(req.compares[0].target, CompareTarget::Version);
    assert_eq!(req.compares[0].int_value, 0);
    assert!(req.failure.is_empty());
    match &req.success[0] {
        TxnOp::Put(p) => assert_eq!(p.lease_id, 7),
        _ => panic!("a put"),
    }
    let won = TxnOut {
        succeeded: true,
        revision: 4,
        responses: vec![TxnOpOut::Put(KvPutOut { prev_kv: None, revision: 5 })],
    };
    assert_eq!(create_outcome(&won, "/k").ok(), Some(5));
    let bare = TxnOut { succeeded: true, revision: 4, responses: vec![] };
    assert_eq!(create_outcome(&bare, "/k").ok(), Some(4));
    let lost = TxnOut { succeeded: false, revision: 4, responses: vec![] };
    let err = create_outcome(&lost, "/k").unwrap_err();
    assert_eq!(err.code, SdkErrorCode::Conflict);
    assert_eq!(err.message, "key '/k' already exists");
}

struct DenyPuts(Arc<Mutex<Vec<String>>>);

impl CallHook for DenyPuts {
    fn name(&self) -> &str {
        "deny-puts"
    }

    fn before(&self, ctx: &CallCtx) -> CallDecision {
        if ctx.op == CallOp::KvPut {
            CallDecision::Deny("frozen".into())
        } else {
            CallDecision::Allow
        }
    }

    fn after(&self, ctx: &CallCtx, outcome: &CallOutcome) {
        self.0.lock().unwrap().push(format!("{}:{}", ctx.op.as_str(), outcome.ok));
    }
}

#[test]
fn call_face_hook_can_deny_plugin_write() {
    let caps = [cap(CAP_KV_WRITE, ""), cap(CAP_KV_READ, "")];
    let sdk = PluginSdk::new("p", &caps);
    let mut hooks = HookRegistry::new();
    let put_ctx = sdk.call_ctx(&sdk.kv_put(&put("/k")).call.unwrap());
    assert!(!before_call(&mut hooks, &put_ctx).unwrap(), "nobody to ask");
    let heard = Arc::new(Mutex::new(Vec::new()));
    hooks.register("*", Arc::new(DenyPuts(Arc::clone(&heard))));
    let err = before_call(&mut hooks, &put_ctx).unwrap_err();
    assert_eq!(err.code, SdkErrorCode::Forbidden);
    assert!(err.message.contains("frozen"), "{}", err.message);
    let get_ctx = sdk.call_ctx(&sdk.kv_get(&b"/k".to_vec()).call.unwrap());
    assert!(before_call(&mut hooks, &get_ctx).unwrap());
    let result: SdkResult<()> = Ok(());
    after_call(&mut hooks, &get_ctx, &result);
    assert_eq!(heard.lock().unwrap().len(), 1);
}

fn failure(kind: CoreErrorKind) -> CoreError {
    CoreError::new(kind, "client text")
}

#[test]
fn maps_core_errors_to_sdk_codes() {
    assert_eq!(
        map_core_error(&failure(CoreErrorKind::NotFound { key: "/k".into() })).code,
        SdkErrorCode::NotFound
    );
    assert_eq!(
        map_core_error(&failure(CoreErrorKind::NotLeaderNoHint)).code,
        SdkErrorCode::Unavailable
    );
    assert_eq!(
        map_core_error(&failure(CoreErrorKind::PermissionDenied("nope".into()))).code,
        SdkErrorCode::Forbidden
    );
    assert_eq!(
        map_core_error(&failure(CoreErrorKind::Backpressure("full".into()))).code,
        SdkErrorCode::ResourceExhausted
    );
    assert_eq!(
        map_core_error(&failure(CoreErrorKind::InvalidArgument("bad".into()))).code,
        SdkErrorCode::InvalidArgument
    );
    assert_eq!(
        map_core_error(&failure(CoreErrorKind::Storage("io".into()))).code,
        SdkErrorCode::Internal
    );
    assert_eq!(
        map_core_error(&failure(CoreErrorKind::LeaseNotFound { lease_id: 1 })).code,
        SdkErrorCode::NotFound
    );
    assert_eq!(map_core_error(&failure(CoreErrorKind::Other)).message, "client text");
}

#[test]
fn callers_of_the_proxy_get_structured_codes() {
    let (s, c) = core_error_status(&failure(CoreErrorKind::NotLeader));
    assert!(matches!(s.code, StatusCode::Unavailable));
    assert_eq!(c, CoordErrorCode::NotLeader);
    let (s, c) = core_error_status(&failure(CoreErrorKind::ClusterUnavailable("down".into())));
    assert!(matches!(s.code, StatusCode::Unavailable));
    assert_eq!(s.message, "down");
    assert_eq!(c, CoordErrorCode::Unavailable);
    let (s, c) = core_error_status(&failure(CoreErrorKind::LeaseNotFound { lease_id: -3 }));
    assert_eq!(s.message, "lease -3 not found");
    assert_eq!(c, CoordErrorCode::NotFound);
    let (s, c) = core_error_status(&failure(CoreErrorKind::TxnCompareFailed));
    assert!(matches!(s.code, StatusCode::Aborted));
    assert_eq!(c, CoordErrorCode::TxnCasFailed);
    let (s, c) = core_error_status(&failure(CoreErrorKind::ClusterSealed));
    assert!(matches!(s.code, StatusCode::FailedPrecondition));
    assert_eq!(c, CoordErrorCode::FailedPrecondition);
    let (s, c) = core_error_status(&failure(CoreErrorKind::LeaseTtlOutOfRange));
    assert!(matches!(s.code, StatusCode::OutOfRange));
    assert_eq!(c, CoordErrorCode::OutOfRange);
    let (s, c) = core_error_status(&failure(CoreErrorKind::TxnTooLarge));
    assert!(matches!(s.code, StatusCode::Internal));
    assert_eq!(c, CoordErrorCode::Internal);
}

#[test]
fn maps_compare_targets_and_ops() {
    let c = Compare {
        op: CompareOp::NotEqual,
        target: CompareTarget::ModRevision,
        key: b"/k".to_vec(),
        int_value: 3,
        bytes_value: Vec::new(),
    };
    let p = to_proto_compare(&c);
    assert!(matches!(p.result, CompareResult::NotEqual));
    assert!(matches!(p.target, Target::ModRev));
    assert!(matches!(p.target_value, Some(TargetValue::ModRevision(3))));

    let op = to_proto_op(&TxnOp::Put(KvPut {
        key: b"/k".to_vec(),
        value: b"v".to_vec(),
        lease_id: 5,
        prev_kv: true,
        request_id: b"rid".to_vec(),
    }));
    match op {
        RequestOp::RequestPut(put) => {
            assert_eq!(put.lease_id, 5);
            assert!(put.prev_kv);
            assert_eq!(put.request_id, b"rid");
        }
        _ => panic!("unexpected op"),
    }
}

fn kv(value: &[u8]) -> KeyValue {
    KeyValue {
        key: b"/k".to_vec(),
        value: value.to_vec(),
        create_revision: 1,
        mod_revision: 2,
        version: 3,
        lease_id: 0,
    }
}

#[test]
fn maps_txn_response_ops() {
    let resp = ResponseOp::ResponsePut(PutResponse { prev_kv: Some(kv(b"old")), revision: 9 });
    match from_proto_response(Some(resp)) {
        Some(TxnOpOut::Put(p)) => {
            assert_eq!(p.revision, 9);
            let prev = p.prev_kv.expect("prev kv");
            assert_eq!(prev.value, b"old");
            assert_eq!(prev.version, 3);
        }
        _ => panic!("unexpected response"),
    }
    assert!(from_proto_response(None).is_none());
}

#[test]
fn transactions_keep_their_order() {
    let req = TxnReq {
        compares: vec![],
        success: vec![TxnOp::Put(put("/a")), TxnOp::Put(put("/b"))],
        failure: vec![TxnOp::Delete(KvDelete {
            key: b"/c".to_vec(),
            range_end: vec![],
            prev_kv: false,
            request_id: vec![],
        })],
        request_id: vec![],
    };
    let (compares, success, failure) = txn_messages(&req);
    assert!(compares.is_empty());
    assert_eq!(failure.len(), 1);
    match &success[1] {
        RequestOp::RequestPut(p) => assert_eq!(p.key, b"/b"),
        _ => panic!("a put"),
    }
    let answer = ResponseOp::ResponsePut(PutResponse { prev_kv: None, revision: 2 });
    let out = txn_outcome(true, 8, vec![None, Some(answer)]);
    assert!(out.succeeded);
    assert_eq!(out.revision, 8);
    assert_eq!(out.responses.len(), 1, "empty answers are left out");
}

#[test]
fn watch_events_are_classified() {
    let event = |kind| WatchEvent { kind, kvs: vec![kv(b"n")], prev_kv: None, revision: 4 };
    let dto = watch_event_to_dto(event(Some(WatchEventKind::Delete)));
    assert_eq!(dto.kind, WatchEventKind::Delete);
    assert_eq!(dto.kvs[0].value, b"n");
    assert_eq!(dto.revision, 4);
    let unknown = watch_event_to_dto(event(None));
    assert_eq!(unknown.kind, WatchEventKind::Put);
    assert!(watch_outcome(None).unwrap().is_none());
    let err = watch_outcome(Some(Err(failure(CoreErrorKind::RequestTimeout)))).err().unwrap();
    assert_eq!(err.code, SdkErrorCode::Unavailable);
    assert!(watch_outcome(Some(Ok(event(None)))).unwrap().is_some());
}

#[test]
fn writes_report_what_was_there() {
    let mut req = put("/k");
    assert!(previous_read(&req).is_none());
    req.prev_kv = true;
    let read = previous_read(&req).unwrap();
    assert_eq!(read.key, b"/k");
    let rows = vec![(b"/k".to_vec(), b"old".to_vec(), 6, 2)];
    let prev = previous_record(Ok(rows)).ok().unwrap();
    assert_eq!(prev.as_ref().unwrap().value, b"old");
    let out = put_outcome(prev, Ok(11)).ok().unwrap();
    assert_eq!(out.revision, 11);
    assert!(out.prev_kv.is_some());
    let err = put_outcome(None, Err(failure(CoreErrorKind::TxnTooLarge))).err().unwrap();
    assert_eq!(err.code, SdkErrorCode::ResourceExhausted);
    assert!(previous_record(Err(failure(CoreErrorKind::NotLeader))).is_err());
}

#[test]
fn deletes_report_what_was_there() {
    let mut req = KvDelete {
        key: b"/a".to_vec(),
        range_end: b"/b".to_vec(),
        prev_kv: false,
        request_id: vec![],
    };
    assert!(deleted_read(&req).is_none());
    req.prev_kv = true;
    assert_eq!(deleted_read(&req).unwrap().range_end, b"/b");
    let out = delete_outcome(vec![], Ok((3, 12))).ok().unwrap();
    assert_eq!((out.deleted, out.revision), (3, 12));
    assert!(delete_outcome(vec![], Err(failure(CoreErrorKind::Other))).is_err());
}

#[test]
fn reads_and_uploads_are_reported() {
    let rows = vec![(b"/k".to_vec(), b"v".to_vec(), 0, 1)];
    let out = range_outcome(Ok((rows, 5, 9))).ok().unwrap();
    assert_eq!((out.count, out.revision, out.kvs.len()), (5, 9, 1));
    assert!(range_outcome(Err(failure(CoreErrorKind::RequestTimeout))).is_err());
    let up = upload_outcome(Ok((9, 100, 2))).ok().unwrap();
    assert_eq!((up.revision, up.size, up.chunks), (9, 100, 2));
    assert!(matches!(upload_length(0), UploadLength::Unknown));
    assert!(matches!(upload_length(5), UploadLength::Declared(5)));
    assert_eq!(check_read_length(0).unwrap_err().message, "max_len must be > 0");
    assert!(check_read_length(1).is_ok());
    assert_eq!(
        upload_finished(4).message,
        "storage upload session 4 is already finished"
    );
    let stat = stat_from_proto(ObjectStat {
        bucket: "b".into(),
        object_id: vec![1],
        size: 2,
        chunks: 3,
        revision: 4,
        exists: true,
        committed: false,
    });
    assert_eq!((stat.size, stat.chunks, stat.revision), (2, 3, 4));
    assert!(stat.exists && !stat.committed);
}

#[test]
fn reads_give_back_the_object() {
    let mut buffer = ReadBuffer::new();
    let object: Vec<u8> = (0..10).collect();
    let mut chunks = vec![object[0..4].to_vec(), object[4..10].to_vec()].into_iter();
    let mut got = Vec::new();
    loop {
        let part = match buffer.take(3) {
            Some(bytes) => Some(bytes),
            None => buffer.fetched(Ok(chunks.next()), 3).ok().unwrap(),
        };
        match part {
            Some(bytes) => {
                assert!(bytes.len() <= 3);
                got.extend(bytes);
            }
            None => break,
        }
    }
    assert_eq!(got, object);
}

#[test]
fn handles_of_a_plugin_are_released_together() {
    let mut b: CoordSdkBackend<&str, &str, &str, &str> = CoordSdkBackend::new();
    assert!(!b.keeps_alive("p", -1));
    assert_eq!(b.keep("p", -1, "first"), None);
    assert_eq!(b.keep("p", -1, "second"), Some("second"));
    assert!(b.keeps_alive("p", -1));
    assert_eq!(b.watch_opened("p", "w"), 1);
    assert_eq!(b.watch_opened("q", "w2"), 2);
    assert_eq!(b.upload_opened("p", "u"), 1);
    assert_eq!(b.read_opened("p", "r"), 2);
    assert_eq!(b.storage_session_count(), 2);
    assert_eq!(b.watch("p", 1).ok(), Some(&"w"));
    let err = b.watch("p", 2).err().unwrap();
    assert_eq!(err.message, "watch subscription 2 not found for plugin 'p'");
    assert!(b.upload_session("p", 1).is_ok());
    assert!(b.read_session("p", 2).is_ok());
    assert!(b.read_session("p", 1).is_err());
    assert_eq!(b.storage_read_chunk("p", 2, 1).ok(), Some(&"r"));
    let err = b.storage_read_chunk("p", 2, 0).err().unwrap();
    assert_eq!(err.message, "max_len must be > 0");
    let err = b.storage_read_chunk("p", 1, 1).err().unwrap();
    assert_eq!(err.message, "storage download session 1 not found");
    assert_eq!(b.release_plugin("p"), (1, 1, 1, 1));
    assert_eq!(b.release_plugin("p"), (0, 0, 0, 0));
    assert_eq!((b.keeper_count(), b.watch_count()), (0, 1));
    assert!(b.take_upload_session("p", 1).is_err());
    assert_eq!(b.storage_abort_write("p", 1), None);
    assert_eq!(b.storage_close_read("p", 2), None);
    assert_eq!(b.lease_stop_keep_alive("p", -1), None);
    assert_eq!(b.watch_close("q", 2), Some("w2"));
}

#[test]
fn renewals_end_before_a_lease_is_revoked() {
    let mut b: CoordSdkBackend<&str, &str, &str, &str> = CoordSdkBackend::new();
    b.keep("p", 7, "keeper");
    b.keep("q", 7, "other");
    let (keeper, revocation) = b.lease_revoke("p", 7);
    assert_eq!(keeper, Some("keeper"));
    assert!(!b.keeps_alive("p", 7));
    assert!(b.keeps_alive("q", 7));
    assert_eq!(revocation.id(), 7);
    assert!(revocation.answer(Ok(())).is_ok());
    let (keeper, revocation) = b.lease_revoke("p", 7);
    assert_eq!(keeper, None);
    let down = CoreError::new(CoreErrorKind::ClusterUnavailable("down".into()), "down");
    let err = revocation.answer(Err(down)).unwrap_err();
    assert_eq!(err.code, SdkErrorCode::Unavailable);
}

#[test]
fn ranges_pass_unchanged_to_the_wire() {
    let op = to_proto_op(&TxnOp::Range(KvRange {
        key: b"/a".to_vec(),
        range_end: b"/z".to_vec(),
        limit: 3,
        revision: 4,
        keys_only: true,
        count_only: false,
    }));
    match op {
        RequestOp::RequestRange(r) => {
            assert_eq!((r.limit, r.revision, r.keys_only, r.count_only), (3, 4, true, false));
            assert_eq!(r.range_end, b"/z");
        }
        _ => panic!("a range"),
    }
}
