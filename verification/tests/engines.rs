use coord_agent::counters::Count;
use coord_agent::name_map::NameMap;
use coord_agent::plugin::component_engine::ComponentHandles;
use coord_agent::plugin::engine::{
    after_call, epoch_deadline, fuel_budget, log_line, sandbox_limits, stop_steps, watchdog_ms,
    EngineHost,
    EngineKind, Execution, Handover, LogLevel, Readiness, Reply, StopStep, TrapClass,
    STOP_WAIT_MS,
};
use coord_agent::plugin::engine_thread::{Command, EngineThread, ThreadAction};
use coord_agent::plugin::js_engine::{
    after_script, epoch_ms, format_caught, hook_slot, hook_source, init_failure, HookSource,
    InterruptCtl, Thrown, HOOKS, MISSING_HANDLER,
};
use coord_agent::plugin::manifest::PluginLimits;
use coord_agent::plugin::registry::PluginStatus;
use coord_agent::plugin::sdk::backend::{
    CompareOp, CompareTarget, KvDeleteOut, KvPutOut, KvRangeOut, KvRecord, ObjectPutOut,
    ObjectStatDto, SdkError, SdkErrorCode, SdkResult, TxnOp, TxnOpOut, TxnOut, WatchEventDto,
    WatchEventKind,
};
use coord_agent::plugin::wasm_engine::{
    answer_bytes, answer_number, answer_unit, classify_trap, delete_request, env_value, i64_le,
    init_outcome, put_request, read_answer, read_guest, request_place, request_size, write_guest,
    write_request, write_without_memory, TrapKind, WasmInvokeError, MAX_IO_BYTES,
};
use coord_agent::plugin::wit::{
    delete_of, env_of, limits_of, op_from_wit, put_of, request_id_of, target_from_wit,
    txn_from_wit, uploaded_stat, visible_stat, wit_delete_out, wit_err, wit_lease, wit_object_stat,
    wit_put_out, wit_txn_out, wit_watch_event, HostError, WitCompare, WitOp, WitOpOut, WitTxn,
};

fn started(kind: EngineKind) -> EngineHost {
    let mut host = EngineHost::new(kind, "p", 100);
    host.spawned();
    host.ready(Readiness::Up).unwrap();
    host.start().unwrap();
    host
}

#[test]
fn budgets_follow_the_time_limit() {
    assert_eq!(epoch_deadline(100), 10);
    assert_eq!(epoch_deadline(3), 1);
    assert_eq!(fuel_budget(100), 20_000_000);
    assert_eq!(fuel_budget(1), 1_000_000);
    assert_eq!(fuel_budget(u64::MAX), u64::MAX);
    assert_eq!(watchdog_ms(100), 1_100);
    assert_eq!(watchdog_ms(u64::MAX), u64::MAX);
}

#[test]
fn components_may_have_several_instances() {
    let limits = PluginLimits::default();
    let wasm = sandbox_limits(EngineKind::Wasm, &limits);
    let component = sandbox_limits(EngineKind::Component, &limits);
    assert_eq!((wasm.instances, wasm.tables, wasm.memories), (1, 4, 1));
    assert_eq!((component.instances, component.tables, component.memories), (8, 8, 4));
    assert_eq!(wasm.memory_bytes, limits.max_memory_mb as u64 * 1024 * 1024);
}

#[test]
fn a_plugin_is_initialised_before_it_starts() {
    let mut host = EngineHost::new(EngineKind::Js, "p", 100);
    assert_eq!(host.status(), PluginStatus::Loaded);
    assert_eq!(host.start().unwrap_err(), "plugin 'p' is not initialised");
    assert!(!host.health_check());
    let mut host = started(EngineKind::Js);
    assert!(host.health_check());
    assert_eq!(host.watchdog(), 1_100);
    assert!(host.check_call().is_ok());
    assert!(host.stop());
    assert!(!host.stop());
    assert_eq!(
        host.check_call().unwrap_err(),
        "plugin 'p' is not started (status=stopped)"
    );
}

#[test]
fn module_evaluation_error_fails_init() {
    let mut host = EngineHost::new(EngineKind::Js, "p", 100);
    host.spawned();
    let err = host.ready(Readiness::Failed("SyntaxError: x".into())).unwrap_err();
    assert_eq!(err, "plugin initialisation failed (see logs)");
    assert_eq!(host.status(), PluginStatus::Failed("SyntaxError: x".into()));
    let mut host = EngineHost::new(EngineKind::Component, "p", 100);
    host.spawned();
    assert_eq!(
        host.ready(Readiness::Gone).unwrap_err(),
        "component plugin initialisation failed: component plugin thread exited during init"
    );
    let mut host = EngineHost::new(EngineKind::Wasm, "p", 100);
    host.spawned();
    assert_eq!(
        host.ready(Readiness::Gone).unwrap_err(),
        "wasm plugin initialisation failed"
    );
}

#[test]
fn js_exception_is_isolated_to_the_call() {
    let mut host = started(EngineKind::Js);
    let reply = Reply::Answered(Err("Error: boom".into()));
    assert_eq!(host.called(reply, false).unwrap_err(), "Error: boom");
    assert_eq!(host.status(), PluginStatus::Started);
    assert_eq!(host.called(Reply::Answered(Ok(vec![1])), false).unwrap(), vec![1]);
}

#[test]
fn infinite_loop_is_interrupted_and_isolated() {
    let mut host = started(EngineKind::Js);
    let reply = Reply::Answered(Err("InternalError: interrupted".into()));
    assert!(host.called(reply, true).is_err());
    match host.status() {
        PluginStatus::Failed(reason) => {
            assert_eq!(
                reason,
                "execution interrupted after 100ms (max_exec_ms); isolate discarded"
            );
        }
        _ => panic!("given up"),
    }
    assert!(host.check_call().is_err());
}

#[test]
fn wasm_infinite_loop_is_interrupted_and_isolated() {
    let mut host = started(EngineKind::Wasm);
    let after = after_call(
        "p",
        Execution::Broken { message: "trap".into(), trap: Some(TrapClass::Epoch) },
    );
    assert!(after.discard);
    assert_eq!(after.trap.map(|t| t.as_str()), Some("epoch"));
    assert!(host.called(Reply::Answered(after.reply), true).is_err());
    assert!(matches!(host.status(), PluginStatus::Failed(_)));
}

fn invoked(plugin: &str, engine: &'static str, ok: bool) -> Count {
    Count::Invocation { plugin: plugin.into(), engine, ok }
}

#[test]
fn js_invocations_are_counted_in_metrics() {
    let mut host = EngineHost::new(EngineKind::Js, "counter", 1000);
    host.spawned();
    host.ready(Readiness::Up).unwrap();
    host.start().unwrap();
    let echo = host.called(Reply::Answered(Ok(b"a".to_vec())), false);
    assert_eq!(host.counts(echo.is_ok(), false), vec![invoked("counter", "js", true)]);
    let boom = host.called(Reply::Answered(Err("Error: intentional failure".into())), false);
    assert_eq!(host.counts(boom.is_ok(), false), vec![invoked("counter", "js", false)]);
    let spun = host.called(Reply::Answered(Err("InternalError: interrupted".into())), true);
    assert_eq!(
        host.counts(spun.is_ok(), true),
        vec![
            invoked("counter", "js", false),
            Count::Trap { plugin: "counter".into(), reason: "timeout" },
        ]
    );
    let refused = host.check_call();
    assert_eq!(host.counts(refused.is_ok(), false), vec![invoked("counter", "js", false)]);
}

#[test]
fn wasm_trap_is_counted_in_metrics() {
    let mut host = EngineHost::new(EngineKind::Wasm, "spin", 200);
    host.spawned();
    host.ready(Readiness::Up).unwrap();
    host.start().unwrap();
    for (class, reason) in [(TrapClass::Fuel, "fuel"), (TrapClass::Epoch, "epoch")] {
        let broken = Execution::Broken { message: "plugin trapped".into(), trap: Some(class) };
        let after = after_call("spin", broken);
        assert_eq!(after.count("spin"), Some(Count::Trap { plugin: "spin".into(), reason }));
        let result = host.called(Reply::Answered(after.reply), true);
        assert_eq!(host.counts(result.is_ok(), true), vec![invoked("spin", "wasm", false)]);
    }
    let host_failure = Execution::Broken { message: "failed to reset fuel".into(), trap: None };
    assert!(after_call("spin", host_failure).count("spin").is_none());
    assert!(after_call("spin", Execution::Code(-1)).count("spin").is_none());
    let component = EngineHost::new(EngineKind::Component, "c", 200);
    assert_eq!(component.counts(true, false), vec![invoked("c", "wasm", true)]);
}

#[test]
fn full_queues_push_back() {
    let mut host = started(EngineKind::Wasm);
    assert!(host.handed_over(Handover::Taken).is_ok());
    let err = host.handed_over(Handover::Full).unwrap_err();
    assert!(err.starts_with("plugin 'p' invocation queue is full (16 pending)"), "{err}");
    assert_eq!(host.status(), PluginStatus::Started);
    assert_eq!(host.handed_over(Handover::Gone).unwrap_err(), "plugin 'p' thread is gone");
    assert!(matches!(host.status(), PluginStatus::Failed(_)));
}

#[test]
fn callers_do_not_wait_forever() {
    let mut host = started(EngineKind::Js);
    let err = host.called(Reply::TimedOut, false).unwrap_err();
    assert_eq!(err, "plugin 'p' invoke exceeded the watchdog (1.1s)");
    assert_eq!(
        host.status(),
        PluginStatus::Failed("invoke watchdog timed out after 1.1s".into())
    );
    let mut host = started(EngineKind::Component);
    assert_eq!(host.called(Reply::Dropped, false).unwrap_err(), "plugin 'p' thread is gone");
}

#[test]
fn answers_and_errors_are_told_apart() {
    let ok = after_call("p", Execution::Answered(vec![9]));
    assert!(!ok.discard && ok.reply == Ok(vec![9]));
    let code = after_call("p", Execution::Code(-2));
    assert!(!code.discard);
    assert_eq!(code.reply.unwrap_err(), "plugin 'p' returned ErrNotFound (abi code -2)");
    let refused = after_call("p", Execution::Refused("no".into()));
    assert_eq!(refused.reply.unwrap_err(), "plugin 'p' returned error: no");
}

#[test]
fn log_lines_carry_the_plugin() {
    let (level, text) = log_line("p", "warning", "careful");
    assert!(matches!(level, LogLevel::Warn));
    assert_eq!(text, "[p] careful");
    assert!(matches!(log_line("p", "loud", "").0, LogLevel::Info));
    assert!(matches!(log_line("p", "trace", "").0, LogLevel::Trace));
    assert!(matches!(log_line("p", "error", "").0, LogLevel::Error));
}

fn running(kind: EngineKind) -> EngineThread {
    let mut t = EngineThread::new(kind);
    if let ThreadAction::BuildRuntime = t.action() {
        t = t.built(Ok(()));
    }
    assert!(matches!(t.action(), ThreadAction::CreateInstance));
    t = t.created(Ok(()));
    assert!(matches!(t.action(), ThreadAction::Report(Readiness::Up)));
    t = t.reported(true);
    assert!(matches!(t.action(), ThreadAction::Await));
    t
}

#[test]
fn a_discarded_instance_is_noted_before_the_reply() {
    for kind in [EngineKind::Js, EngineKind::Wasm, EngineKind::Component] {
        let t = running(kind).commanded(Command::Invoke);
        let broken = Execution::Broken { message: "trap".into(), trap: Some(TrapClass::Fuel) };
        let mut t = t.executed(after_call("p", broken));
        assert!(t.trapped());
        assert!(matches!(t.action(), ThreadAction::Reply(Err(_))));
        t = t.replied();
        assert!(!matches!(t.action(), ThreadAction::Await));
    }
}

#[test]
fn a_failed_call_leaves_the_thread_serving() {
    let t = running(EngineKind::Wasm).commanded(Command::Invoke);
    let mut t = t.executed(after_call("p", Execution::Code(-1)));
    assert!(matches!(t.action(), ThreadAction::Reply(Err(_))));
    t = t.replied();
    assert!(!t.trapped());
    assert!(matches!(t.action(), ThreadAction::Await));
}

#[test]
fn plugins_are_stopped_in_order() {
    let (release, forget) = (StopStep::Release, StopStep::Forget);
    let (tell, join) = (StopStep::Tell, StopStep::Join);
    assert_eq!(stop_steps(EngineKind::Js), vec![release, forget, tell, join]);
    assert_eq!(stop_steps(EngineKind::Wasm), vec![release, tell, join, forget]);
    assert_eq!(stop_steps(EngineKind::Component), vec![tell, join, release, forget]);
    assert_eq!(STOP_WAIT_MS, 5000);
}

#[test]
fn a_component_releases_before_it_acknowledges() {
    let mut t = running(EngineKind::Component).commanded(Command::Stop);
    assert!(matches!(t.action(), ThreadAction::RunStop));
    t = t.stopped();
    assert!(matches!(t.action(), ThreadAction::Release));
    t = t.released();
    assert!(matches!(t.action(), ThreadAction::Acknowledge));
    t = t.acknowledged();
    assert!(matches!(t.action(), ThreadAction::End));
}

#[test]
fn a_script_releases_after_it_acknowledges() {
    let mut t = running(EngineKind::Js).commanded(Command::Stop).stopped();
    assert!(matches!(t.action(), ThreadAction::Acknowledge));
    t = t.acknowledged();
    assert!(matches!(t.action(), ThreadAction::Release));
    t = t.released();
    assert!(matches!(t.action(), ThreadAction::End));
}

#[test]
fn a_thread_that_cannot_build_reports_and_ends() {
    let mut t = EngineThread::new(EngineKind::Js).built(Err("no runtime".into()));
    match t.action() {
        ThreadAction::Report(Readiness::Failed(e)) => assert!(e.ends_with("no runtime"), "{e}"),
        _ => panic!("a report"),
    }
    t = t.reported(true);
    assert!(matches!(t.action(), ThreadAction::End));
}

// ---- guest memory ----

#[test]
fn guest_memory_is_read_in_bounds() {
    let memory = [1u8, 2, 3, 4];
    assert_eq!(read_guest(Some(&memory), 1, 2), Ok(vec![2, 3]));
    assert_eq!(read_guest(Some(&memory), 3, 2), Err(-8));
    assert!(read_guest(Some(&memory), -1, 2).is_err());
    assert!(read_guest(Some(&memory), 0, -1).is_err());
    assert!(read_guest(None, 0, 1).is_err());
}

#[test]
fn guest_memory_round_trips() {
    let mut memory = [0u8; 8];
    assert_eq!(write_guest(&mut memory, 2, 4, &[7, 8, 9]), 3);
    assert_eq!(memory, [0, 0, 7, 8, 9, 0, 0, 0]);
    assert_eq!(read_guest(Some(&memory), 2, 3), Ok(vec![7, 8, 9]));
    assert_eq!(write_guest(&mut memory, 2, 2, &[1, 2, 3]), -7);
    assert_eq!(write_guest(&mut memory, 7, 4, &[1, 2]), -8);
    assert_eq!(memory, [0, 0, 7, 8, 9, 0, 0, 0]);
    assert!(write_without_memory(0, 4, 1) < 0);
}

#[test]
fn numbers_cross_as_little_endian() {
    assert_eq!(i64_le(0x0102), vec![2, 1, 0, 0, 0, 0, 0, 0]);
    assert_eq!(i64_le(-1), vec![0xff; 8]);
    assert_eq!(i64_le(i64::MIN), i64::MIN.to_le_bytes().to_vec());
}

#[test]
fn answers_to_guests_are_codes() {
    let denied: SdkResult<Vec<u8>> = Err(SdkError::new(SdkErrorCode::Forbidden, "no"));
    assert_eq!(answer_bytes(denied), Err(-1));
    assert_eq!(answer_bytes(Ok(vec![1])), Ok(vec![1]));
    assert_eq!(answer_number(Ok(1)), Ok(i64_le(1)));
    let conflict: SdkResult<()> = Err(SdkError::new(SdkErrorCode::Conflict, "c"));
    assert_eq!(answer_unit(conflict), -9);
    assert_eq!(answer_unit(Ok(())), 0);
    let put = put_request(b"k".to_vec(), b"v".to_vec());
    assert_eq!((put.lease_id, put.prev_kv), (0, false));
    assert!(delete_request(b"k".to_vec()).range_end.is_empty());
    let mut env = NameMap::new();
    env.insert("MODE".to_string(), "test".to_string());
    assert_eq!(env_value(&env, b"MODE".to_vec()), Ok(b"test".to_vec()));
    assert_eq!(env_value(&env, b"NONE".to_vec()), Err(-2));
    assert_eq!(env_value(&env, vec![0xff]), Err(-3));
}

#[test]
fn wasm_echo_round_trips_payload() {
    let method = "echo";
    let payload = b"hello";
    let total = request_size(method.len(), payload.len()).ok().unwrap();
    let mut memory = vec![0u8; 64];
    let place = request_place(16, method.len(), total, memory.len()).ok().unwrap();
    write_request(&mut memory, place, method, payload);
    assert_eq!(&memory[16..25], b"echohello");
    let packed = ((20i64) << 32) | 5;
    match read_answer(packed, &memory).ok().unwrap() {
        Execution::Answered(bytes) => assert_eq!(bytes, payload),
        _ => panic!("an answer"),
    }
    match read_answer(-2i32 as u32 as i64, &memory).ok().unwrap() {
        Execution::Code(code) => assert_eq!(code, -2),
        _ => panic!("a code"),
    }
    assert!(read_answer(((60i64) << 32) | 5, &memory).is_err());
    assert!(request_size(MAX_IO_BYTES, 1).is_err());
    assert!(request_place(60, 4, 9, 64).is_err());
    assert!(request_place(-5, 4, 9, 64).is_err());
}

#[test]
fn traps_are_classified() {
    assert_eq!(classify_trap(TrapKind::OutOfFuel), TrapClass::Fuel);
    assert_eq!(classify_trap(TrapKind::Interrupt), TrapClass::Epoch);
    assert_eq!(classify_trap(TrapKind::MemoryOutOfBounds), TrapClass::Memory);
    assert_eq!(classify_trap(TrapKind::Other), TrapClass::Other);
    match WasmInvokeError::trapped(TrapClass::Fuel, "out".into()).into_execution() {
        Execution::Broken { trap, .. } => assert_eq!(trap, Some(TrapClass::Fuel)),
        _ => panic!("broken"),
    }
    assert!(WasmInvokeError::host("h".into()).trap.is_none());
    assert!(init_outcome(0).is_ok());
    assert_eq!(init_outcome(-3).unwrap_err(), "plugin init() returned failure code -3");
}

// ---- components ----

#[test]
fn handles_of_a_component_are_numbered() {
    let mut h = ComponentHandles::new(2);
    let s = h.add_subscription(11).ok().unwrap();
    let u = h.add_uploader(22, "b".into(), b"o".to_vec()).ok().unwrap();
    assert_ne!(s, u);
    assert_eq!(h.next_subscription(s).ok(), Some(11));
    assert_eq!(h.write_uploader(u).ok(), Some(22));
    match h.add_downloader(33) {
        Err(HostError::ResourceExhausted(m)) => {
            assert_eq!(m, "storage handle table is full (max_objects): resource table has no free keys");
        }
        _ => panic!("full"),
    }
    assert_eq!(h.live_handle_ids(), (vec![11], vec![22], vec![]));
    assert_eq!(h.live_handle_ids(), (vec![], vec![], vec![]));
}

#[test]
fn handles_are_listed_by_number() {
    let mut h = ComponentHandles::new(3);
    let a = h.add_subscription(1).ok().unwrap();
    h.add_subscription(2).ok().unwrap();
    assert_eq!(h.drop_subscription(a), Some(1));
    let c = h.add_subscription(3).ok().unwrap();
    assert_eq!(c, a);
    assert_eq!(h.live_handle_ids(), (vec![3, 2], vec![], vec![]));
}

#[test]
fn a_handle_of_another_kind_is_dropped_without_a_release() {
    let mut h = ComponentHandles::new(1);
    let u = h.add_uploader(5, "b".into(), b"o".to_vec()).ok().unwrap();
    assert_eq!(h.drop_subscription(u), None);
    assert!(h.write_uploader(u).is_err());
    assert_eq!(h.release_handles(), (vec![], vec![], vec![]));
    assert!(h.add_downloader(6).is_ok());
}

#[test]
fn a_closed_subscription_is_not_closed_again() {
    let mut h = ComponentHandles::new(8);
    let s = h.add_subscription(11).ok().unwrap();
    assert_eq!(h.close_subscription(s).ok(), Some(Some(11)));
    assert_eq!(h.close_subscription(s).ok(), Some(None));
    match h.next_subscription(s) {
        Err(e) => match e {
            HostError::InvalidArgument(m) | HostError::NotFound(m) => {
                assert_eq!(m, "watch subscription is already closed")
            }
            _ => panic!("another class"),
        },
        Ok(_) => panic!("closed"),
    }
    assert_eq!(h.drop_subscription(s), None);
    match h.next_subscription(s) {
        Err(HostError::InvalidArgument(m)) => {
            assert_eq!(m, "watch subscription handle is not valid: resource not present")
        }
        _ => panic!("gone"),
    }
}

#[test]
fn an_upload_ends_once() {
    let mut h = ComponentHandles::new(8);
    let u = h.add_uploader(5, "b".into(), b"o".to_vec()).ok().unwrap();
    assert_eq!(h.commit_uploader(u).ok(), Some((5, "b".to_string(), b"o".to_vec())));
    assert!(h.commit_uploader(u).is_err());
    assert_eq!(h.abort_uploader(u).ok(), Some(None));
    assert_eq!(h.drop_uploader(u), None);
    let v = h.add_uploader(6, "b".into(), b"o".to_vec()).ok().unwrap();
    assert_eq!(h.abort_uploader(v).ok(), Some(Some(6)));
    let w = h.add_uploader(7, "b".into(), b"o".to_vec()).ok().unwrap();
    assert_eq!(h.drop_uploader(w), Some(7));
    match h.write_uploader(w) {
        Err(HostError::InvalidArgument(m)) => {
            assert_eq!(m, "upload handle is not valid: resource not present")
        }
        _ => panic!("gone"),
    }
}

#[test]
fn nothing_outlives_a_component() {
    let mut h = ComponentHandles::new(8);
    let s = h.add_subscription(1).ok().unwrap();
    h.add_subscription(2).ok().unwrap();
    h.add_uploader(3, "b".into(), vec![]).ok().unwrap();
    let d = h.add_downloader(4).ok().unwrap();
    h.add_downloader(5).ok().unwrap();
    assert_eq!(h.read_downloader(d).ok(), Some(4));
    assert_eq!(h.close_downloader(d).ok(), Some(Some(4)));
    assert!(h.read_downloader(d).is_err());
    assert_eq!(h.drop_downloader(d), None);
    h.close_subscription(s).ok().unwrap();
    assert_eq!(h.release_handles(), (vec![2], vec![3], vec![5]));
    assert_eq!(h.release_handles(), (vec![], vec![], vec![]));
}

#[test]
fn a_handle_of_one_kind_is_not_of_another() {
    let mut h = ComponentHandles::new(8);
    let s = h.add_subscription(1).ok().unwrap();
    assert!(h.write_uploader(s).is_err());
    assert!(h.read_downloader(s).is_err());
}

fn record(value: &[u8]) -> KvRecord {
    KvRecord { key: b"/k".to_vec(), value: value.to_vec(), lease_id: 1, version: 2 }
}

#[test]
fn errors_keep_their_class_for_components() {
    let all = [
        SdkErrorCode::Forbidden,
        SdkErrorCode::NotFound,
        SdkErrorCode::InvalidArgument,
        SdkErrorCode::Unavailable,
        SdkErrorCode::ResourceExhausted,
        SdkErrorCode::Conflict,
        SdkErrorCode::Internal,
    ];
    for code in all {
        let got = match wit_err(&SdkError::new(code, "m")) {
            HostError::Forbidden(m) => (SdkErrorCode::Forbidden, m),
            HostError::NotFound(m) => (SdkErrorCode::NotFound, m),
            HostError::InvalidArgument(m) => (SdkErrorCode::InvalidArgument, m),
            HostError::Unavailable(m) => (SdkErrorCode::Unavailable, m),
            HostError::ResourceExhausted(m) => (SdkErrorCode::ResourceExhausted, m),
            HostError::Conflict(m) => (SdkErrorCode::Conflict, m),
            HostError::Internal(m) => (SdkErrorCode::Internal, m),
        };
        assert_eq!(got, (code, format!("{}: m", code.exception_name())));
    }
}

#[test]
fn answers_reach_components() {
    let put = wit_put_out(&KvPutOut { prev_kv: Some(record(b"o")), revision: 3 });
    assert_eq!(put.revision, 3);
    assert_eq!(put.prev.unwrap().value, b"o");
    let del = wit_delete_out(&KvDeleteOut { deleted: 2, prev_kvs: vec![], revision: 4 });
    assert_eq!((del.deleted, del.revision), (2, 4));
    let txn = wit_txn_out(&TxnOut {
        succeeded: true,
        revision: 5,
        responses: vec![
            TxnOpOut::Range(KvRangeOut { kvs: vec![record(b"a")], count: 1, revision: 5 }),
            TxnOpOut::Delete(KvDeleteOut { deleted: 1, prev_kvs: vec![], revision: 5 }),
        ],
    });
    assert!(txn.succeeded);
    assert!(matches!(&txn.responses[0], WitOpOut::Range(r) if r.kvs[0].value == b"a"));
    assert!(matches!(&txn.responses[1], WitOpOut::Delete(d) if d.deleted == 1));
    let event = wit_watch_event(&WatchEventDto {
        kind: WatchEventKind::BufferOverflow,
        kvs: vec![],
        prev_kv: None,
        revision: 6,
    });
    assert_eq!((event.kind, event.revision), (WatchEventKind::BufferOverflow, 6));
}

#[test]
fn requests_of_components_are_taken_over() {
    assert_eq!(request_id_of(Some("id".into())), b"id");
    assert!(request_id_of(None).is_empty());
    let put = put_of(b"k".to_vec(), b"v".to_vec(), 3, true, None);
    assert_eq!((put.lease_id, put.prev_kv), (3, true));
    let delete = delete_of(b"k".to_vec(), b"z".to_vec(), true);
    assert_eq!((delete.key, delete.range_end, delete.prev_kv), (b"k".to_vec(), b"z".to_vec(), true));
    assert!(delete.request_id.is_empty());
    let lease = wit_lease(30, Ok(7)).ok().unwrap();
    assert_eq!((lease.id, lease.ttl), (7, 30));
    match wit_lease(30, Err(SdkError::forbidden("no"))) {
        Err(HostError::Forbidden(m)) => assert_eq!(m, "ErrForbidden: no"),
        _ => panic!("forbidden"),
    }
    let limits = limits_of(&PluginLimits { max_memory_mb: 64, max_exec_ms: 200, max_objects: 9 });
    assert_eq!((limits.max_exec_ms, limits.max_memory_mb, limits.max_objects), (200, 64, 9));
    assert_eq!(op_from_wit(CompareOp::Less), CompareOp::Less);
    assert_eq!(target_from_wit(CompareTarget::Value), CompareTarget::Value);
    let req = txn_from_wit(WitTxn {
        compares: vec![WitCompare {
            op: CompareOp::Equal,
            target: CompareTarget::Value,
            key: b"k".to_vec(),
            int_value: 0,
            bytes_value: b"x".to_vec(),
        }],
        success: vec![WitOp::Delete { key: b"k".to_vec(), range_end: vec![], prev_kv: true }],
        failure: vec![],
        request_id: Some("r".into()),
    });
    assert_eq!(req.compares[0].bytes_value, b"x");
    assert!(matches!(&req.success[0], TxnOp::Delete(d) if d.prev_kv));
    assert_eq!(req.request_id, b"r");
    let mut env = NameMap::new();
    env.insert("A".to_string(), "1".to_string());
    assert_eq!(env_of(&env, "A").ok(), Some("1".to_string()));
    match env_of(&env, "B") {
        Err(HostError::NotFound(m)) => assert_eq!(m, "env 'B' is not set"),
        _ => panic!("missing"),
    }
}

#[test]
fn stats_reach_components() {
    let stat = |exists: bool, committed: bool| ObjectStatDto {
        bucket: "b".into(),
        object_id: b"o".to_vec(),
        size: 1,
        chunks: 1,
        revision: 2,
        exists,
        committed,
    };
    assert_eq!(wit_object_stat(&stat(true, true)).size, 1);
    let up = uploaded_stat("b".into(), b"o".to_vec(), &ObjectPutOut { revision: 9, size: 7, chunks: 3 });
    assert_eq!((up.revision, up.size, up.chunks), (9, 7, 3));
    assert!(up.exists && up.committed);
    assert!(visible_stat(None).is_none());
    assert!(visible_stat(Some(stat(true, true))).is_some());
    assert!(visible_stat(Some(stat(false, false))).is_none());
}

// ---- scripts ----

#[test]
fn calls_are_interrupted_only_over_time() {
    let mut ctl = InterruptCtl::default();
    assert!(!ctl.expired(1_000));
    ctl.arm(1_000, 50);
    assert!(!ctl.expired(1_049));
    assert!(!ctl.expired(0), "the clock is not known");
    assert!(ctl.expired(1_050));
    assert!(ctl.was_tripped());
    ctl.disarm();
    assert!(!ctl.expired(9_999));
    ctl.arm(2_000, 50);
    assert!(!ctl.was_tripped());
    assert_eq!(epoch_ms(Some(12)), 12);
    assert_eq!(epoch_ms(None), 0);
    assert!(after_script(Err("x".into()), true).discard);
}

#[test]
fn missing_handler_is_reported() {
    assert_eq!(MISSING_HANDLER, "plugin does not export 'handleInvoke'");
    assert_eq!(HOOKS[0], "handleInvoke");
    assert!(hook_source(false, false).is_none());
    assert!(matches!(hook_source(true, true), Some(HookSource::Export)));
    assert!(matches!(hook_source(false, true), Some(HookSource::Global)));
    assert_eq!(hook_slot("init"), "__coord_hook_init");
}

#[test]
fn thrown_values_are_shown() {
    let named = Thrown::Error { name: Some("TypeError".into()), message: "bad".into() };
    assert_eq!(format_caught(&named), "TypeError: bad");
    let bare = Thrown::Error { name: None, message: "bad".into() };
    assert_eq!(format_caught(&bare), "Error: bad");
    assert_eq!(format_caught(&Thrown::Text("plain".into())), "plain");
    assert_eq!(format_caught(&Thrown::Shown("{}".into())), "{}");
    assert_eq!(init_failure("p", "e"), "plugin 'p' init failed: e");
}
