use coord_agent::plugin::sdk::backend::{
    CompareOp, CompareTarget, KvDeleteOut, KvPutOut, KvRangeOut, KvRecord, ObjectGetOut,
    ObjectPutOut, ObjectStatDto, SdkError, SdkErrorCode, TxnOp, TxnOpOut, TxnOut, WatchEventDto,
    WatchEventKind,
};
use coord_agent::plugin::sdk::bind::{
    declared_size_to_js, decode, is_forbidden, kv_create_request, kv_delete_request,
    kv_put_request, kv_range_request, object_request, parse_compare, parse_op_array, parse_txn_op,
    read_size, sleep_ms, txn_request, upload_request, upload_size, watch_request, MAX_SLEEP_MS,
};
use coord_agent::plugin::sdk::js_answer::{
    chunk_to_js, create_out_to_js, delete_out_to_js, download_to_js, event_to_js, lease_to_js, object_stat_to_js,
    put_out_to_js, range_out_to_js, record_to_js, stat_answer_to_js, throw_sdk_error,
    txn_out_to_js, upload_out_to_js,
};
use coord_agent::plugin::sdk::js_value::{
    field, js_bool, js_bytes, js_i64, js_is_object, js_string, obj_bytes, obj_i64, obj_text,
    opt_object, JsFault, JsValue,
};

fn text(s: &str) -> JsValue {
    JsValue::Text(s.into())
}

fn object(fields: Vec<(&str, JsValue)>) -> JsValue {
    JsValue::Object(fields.into_iter().map(|(n, v)| (n.to_string(), v)).collect())
}

fn fault<T>(r: Result<T, JsFault>) -> String {
    match r {
        Ok(_) => panic!("a fault was expected"),
        Err(JsFault::WrongKind(m)) => m,
        Err(JsFault::NotText) => "not text".into(),
    }
}

fn number(v: &JsValue, name: &str) -> i64 {
    match field(v, name) {
        Some(JsValue::Number(n)) => *n,
        _ => panic!("{name} is no number"),
    }
}

fn truth(v: &JsValue, name: &str) -> bool {
    match field(v, name) {
        Some(JsValue::Bool(b)) => *b,
        _ => panic!("{name} is no truth value"),
    }
}

fn word(v: &JsValue, name: &str) -> String {
    match field(v, name) {
        Some(JsValue::Text(s)) => s.clone(),
        _ => panic!("{name} is no text"),
    }
}

#[test]
fn bytes_are_taken_from_texts_and_arrays() {
    assert_eq!(js_bytes(&text("é")).ok(), Some("é".as_bytes().to_vec()));
    assert_eq!(js_bytes(&JsValue::Bytes(vec![1, 2])).ok(), Some(vec![1, 2]));
    assert_eq!(js_bytes(&JsValue::Null).ok(), Some(vec![]));
    assert_eq!(js_bytes(&JsValue::Undefined).ok(), Some(vec![]));
    assert_eq!(
        fault(js_bytes(&JsValue::Number(1))),
        "expected a string, Uint8Array or null/undefined value"
    );
    assert_eq!(js_i64(&JsValue::Number(4), 0), 4);
    assert_eq!(js_i64(&text("4"), 9), 9);
    assert!(js_bool(&JsValue::Bool(true), false));
    assert!(js_bool(&JsValue::Null, true));
    assert_eq!(js_string(&text("a"), "bucket").ok(), Some("a".to_string()));
    assert_eq!(fault(js_string(&JsValue::Null, "bucket")), "'bucket' must be a string");
}

#[test]
fn fields_are_found_by_name() {
    let o = object(vec![("a", JsValue::Number(1)), ("b", text("x"))]);
    assert!(js_is_object(&o));
    assert!(!js_is_object(&text("x")));
    assert_eq!(obj_i64(&o, "a", 0), 1);
    assert_eq!(obj_i64(&o, "z", 5), 5);
    assert_eq!(obj_text(&o, "b").ok(), Some("x"));
    assert_eq!(obj_bytes(&o, "z").ok(), Some(vec![]));
    assert_eq!(opt_object(&JsValue::Undefined).ok(), Some(false));
    assert_eq!(opt_object(&o).ok(), Some(true));
    assert_eq!(fault(opt_object(&JsValue::Number(1))), "options must be an object");
}

#[test]
fn requests_take_their_options() {
    let opts = object(vec![
        ("leaseId", JsValue::Number(7)),
        ("prevKv", JsValue::Bool(true)),
        ("requestId", text("rid")),
    ]);
    let put = kv_put_request(&text("/k"), &text("v"), &opts).ok().unwrap();
    assert_eq!((put.lease_id, put.prev_kv), (7, true));
    assert_eq!(put.request_id, b"rid");
    let bare = kv_put_request(&text("/k"), &text("v"), &JsValue::Undefined).ok().unwrap();
    assert_eq!((bare.lease_id, bare.prev_kv), (0, false));
    let create = kv_create_request(&text("/k"), &text("v"), &opts).ok().unwrap();
    assert_eq!(create.2, 7);
    let range = kv_range_request(
        &text("/a"),
        &object(vec![
            ("rangeEnd", text("/b")),
            ("limit", JsValue::Number(3)),
            ("keysOnly", JsValue::Bool(true)),
        ]),
    )
    .ok()
    .unwrap();
    assert_eq!((range.limit, range.keys_only, range.count_only), (3, true, false));
    let delete = kv_delete_request(&text("/a"), &JsValue::Null).ok().unwrap();
    assert!(!delete.prev_kv);
    let watch = watch_request(&text("/a"), &object(vec![("startRevision", JsValue::Number(9))]))
        .ok()
        .unwrap();
    assert_eq!(watch.start_revision, 9);
    assert!(kv_put_request(&JsValue::Number(1), &text("v"), &JsValue::Null).is_err());
}

#[test]
fn every_object_has_named_fields() {
    let fields = || vec![("leaseId".to_string(), JsValue::Number(7))];
    let bytes = JsValue::Named(Box::new(JsValue::Bytes(vec![1, 2])), fields());
    let list = JsValue::Named(Box::new(JsValue::List(vec![])), fields());
    for options in [&bytes, &list] {
        assert!(js_is_object(options));
        assert_eq!(opt_object(options).ok(), Some(true));
        assert_eq!(obj_i64(options, "leaseId", 0), 7);
        assert_eq!(obj_i64(options, "limit", 3), 3);
        let put = kv_put_request(&text("/k"), &text("v"), options).ok().unwrap();
        assert_eq!(put.lease_id, 7);
    }
    assert_eq!(js_bytes(&bytes).ok(), Some(vec![1, 2]));
    assert!(js_bytes(&list).is_err());
    let op = object(vec![("type", text("put")), ("key", text("/k"))]);
    let ops = JsValue::Named(Box::new(JsValue::List(vec![op])), fields());
    assert_eq!(parse_op_array(&ops, "success").ok().unwrap().len(), 1);
    assert_eq!(fault(parse_op_array(&bytes, "success")), "txn 'success' must be an array");
    assert_eq!(obj_i64(&JsValue::List(vec![]), "leaseId", 4), 4);
}

#[test]
fn comparisons_have_aliases() {
    let compare = |target: &str, op: &str| {
        parse_compare(&object(vec![
            ("target", text(target)),
            ("op", text(op)),
            ("key", text("/k")),
            ("version", JsValue::Number(1)),
            ("modRevision", JsValue::Number(2)),
            ("value", text("v")),
        ]))
    };
    let c = compare("version", "eq").ok().unwrap();
    assert_eq!((c.target, c.op, c.int_value), (CompareTarget::Version, CompareOp::Equal, 1));
    let c = compare("mod_revision", ">").ok().unwrap();
    assert_eq!((c.target, c.op, c.int_value), (CompareTarget::ModRevision, CompareOp::Greater, 2));
    let c = compare("value", "ne").ok().unwrap();
    assert_eq!((c.op, c.bytes_value), (CompareOp::NotEqual, b"v".to_vec()));
    assert_eq!(compare("value", "lt").ok().unwrap().op, CompareOp::Less);
    assert_eq!(fault(compare("lease", "eq")), "unknown compare target 'lease'");
    assert_eq!(fault(compare("value", "~")), "unknown compare op '~'");
    assert_eq!(fault(parse_compare(&text("x"))), "txn compare must be an object");
}

#[test]
fn transactions_of_scripts_are_read() {
    let op = |kind: &str| object(vec![("type", text(kind)), ("key", text("/k"))]);
    assert!(matches!(parse_txn_op(&op("put")), Ok(TxnOp::Put(_))));
    assert!(matches!(parse_txn_op(&op("range")), Ok(TxnOp::Range(_))));
    assert!(matches!(parse_txn_op(&op("delete")), Ok(TxnOp::Delete(_))));
    assert_eq!(fault(parse_txn_op(&op("move"))), "unknown txn op type 'move'");
    assert_eq!(fault(parse_txn_op(&JsValue::Null)), "txn op must be an object");
    assert_eq!(
        fault(parse_op_array(&text("x"), "success")),
        "txn 'success' must be an array"
    );
    let req = txn_request(
        &JsValue::List(vec![]),
        &JsValue::List(vec![op("put"), op("delete")]),
        &JsValue::List(vec![]),
        &JsValue::Undefined,
    )
    .ok()
    .unwrap();
    assert_eq!((req.success.len(), req.failure.len()), (2, 0));
    assert!(req.request_id.is_empty());
}

#[test]
fn sleeps_are_bounded() {
    assert_eq!(sleep_ms(&JsValue::Number(5)), 5);
    assert_eq!(sleep_ms(&JsValue::Number(-5)), 0);
    assert_eq!(sleep_ms(&JsValue::Number(i64::MAX)), MAX_SLEEP_MS as u64);
}

#[test]
fn utilities_decode_and_recognise() {
    assert_eq!(decode(&JsValue::Bytes(b"ok".to_vec())).ok(), Some("ok".to_string()));
    assert!(is_forbidden(&object(vec![("name", text("ErrForbidden"))])));
    assert!(!is_forbidden(&object(vec![("name", text("ErrNotFound"))])));
    assert!(!is_forbidden(&JsValue::Null));
}

#[test]
fn js_plugin_round_trips_unknown_length_storage_stream() {
    assert_eq!(upload_size(None).ok(), Some(0));
    assert_eq!(upload_size(Some(12)).ok(), Some(12));
    assert_eq!(
        fault(upload_size(Some(-1))),
        "'totalSize' must be >= 0 (0 or omitted = unknown length)"
    );
    assert!(matches!(declared_size_to_js(0), JsValue::Null));
    assert!(matches!(declared_size_to_js(12), JsValue::Number(12)));
    let (bucket, id, size) = upload_request(&text("b"), &text("o"), Some(3)).ok().unwrap();
    assert_eq!((bucket.as_str(), id.as_slice(), size), ("b", b"o".as_slice(), 3));
    assert_eq!(
        fault(upload_request(&JsValue::Null, &text("o"), Some(-1))),
        "'bucket' must be a string",
    );
    assert_eq!(object_request(&text("b"), &text("o")).ok().unwrap().1, b"o");
    assert_eq!(read_size(&JsValue::Number(1)).ok(), Some(1));
    assert_eq!(
        fault(read_size(&JsValue::Number(0))),
        "'maxLen' must be a positive integer"
    );
}

fn record() -> KvRecord {
    KvRecord { key: b"/k".to_vec(), value: b"v".to_vec(), lease_id: 3, version: 4 }
}

#[test]
fn answers_have_the_fields_that_scripts_read() {
    let r = record_to_js(&record());
    assert_eq!((number(&r, "leaseId"), number(&r, "version")), (3, 4));
    let put = put_out_to_js(&KvPutOut { prev_kv: None, revision: 8 });
    assert_eq!(number(&put, "revision"), 8);
    assert!(field(&put, "prevKv").is_none());
    let put = put_out_to_js(&KvPutOut { prev_kv: Some(record()), revision: 8 });
    assert_eq!(number(field(&put, "prevKv").unwrap(), "version"), 4);
    let range = range_out_to_js(&KvRangeOut { kvs: vec![record()], count: 1, revision: 8 });
    assert_eq!(number(&range, "count"), 1);
    assert!(matches!(field(&range, "kvs"), Some(JsValue::List(l)) if l.len() == 1));
    let del = delete_out_to_js(&KvDeleteOut { deleted: 2, prev_kvs: vec![], revision: 8 });
    assert_eq!(number(&del, "deleted"), 2);
    let txn = txn_out_to_js(&TxnOut {
        succeeded: true,
        revision: 9,
        responses: vec![TxnOpOut::Put(KvPutOut { prev_kv: None, revision: 9 })],
    });
    assert!(truth(&txn, "succeeded"));
    match field(&txn, "responses") {
        Some(JsValue::List(l)) => assert_eq!(word(&l[0], "type"), "put"),
        _ => panic!("a list"),
    }
    let lease = lease_to_js(5, 30);
    assert_eq!((number(&lease, "id"), number(&lease, "ttl")), (5, 30));
}

#[test]
fn objects_are_shown_to_scripts() {
    let stat = ObjectStatDto {
        bucket: "b".into(),
        object_id: b"o".to_vec(),
        size: 2,
        chunks: 1,
        revision: 7,
        exists: true,
        committed: true,
    };
    let shown = object_stat_to_js(&stat);
    assert_eq!(word(&shown, "bucket"), "b");
    assert_eq!(number(&shown, "size"), 2);
    assert!(matches!(stat_answer_to_js(&None), JsValue::Null));
    let up = upload_out_to_js(&ObjectPutOut { revision: 1, size: 2, chunks: 3 });
    assert_eq!(number(&up, "chunks"), 3);
    let got = download_to_js(&ObjectGetOut { stat, data: b"hi".to_vec() });
    assert!(matches!(field(&got, "data"), Some(JsValue::Bytes(b)) if b == b"hi"));
    assert!(matches!(chunk_to_js(None), JsValue::Null));
    assert!(matches!(chunk_to_js(Some(vec![1])), JsValue::Bytes(_)));
}

#[test]
fn js_plugin_consumes_watch_events() {
    assert!(matches!(event_to_js(&None), JsValue::Null));
    let event = event_to_js(&Some(WatchEventDto {
        kind: WatchEventKind::Delete,
        kvs: vec![record()],
        prev_kv: None,
        revision: 6,
    }));
    assert_eq!(word(&event, "type"), WatchEventKind::Delete.as_str());
    assert_eq!(number(&event, "revision"), 6);
}

#[test]
fn refusals_are_recognised_by_name() {
    let e = throw_sdk_error(&SdkError::new(SdkErrorCode::Forbidden, "no"));
    assert_eq!(e.name, "ErrForbidden");
    assert_eq!(e.code, "forbidden");
    assert_eq!(e.message, "ErrForbidden: no");
    assert!(is_forbidden(&object(vec![("name", JsValue::Text(e.name))])));
}

#[test]
fn a_create_answers_with_its_revision() {
    match create_out_to_js(7) {
        JsValue::Object(fields) => {
            assert_eq!(fields.len(), 1);
            assert_eq!(fields[0].0, "revision");
            assert!(matches!(fields[0].1, JsValue::Number(7)));
        }
        _ => panic!("an object"),
    }
}
