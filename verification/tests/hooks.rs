use coord_agent::plugin::hooks::{
    CallCtx, CallDecision, CallHook, CallOp, CallOutcome, HookRegistry,
};
use coord_agent::plugin::sdk::backend::{SdkError, SdkErrorCode};
use std::sync::{Arc, Mutex};

/// Refuses writes outside of a subtree and records all calls.
struct AuditHook {
    log: Arc<Mutex<Vec<String>>>,
}

impl CallHook for AuditHook {
    fn name(&self) -> &str {
        "audit"
    }

    fn before(&self, ctx: &CallCtx) -> CallDecision {
        self.log
            .lock()
            .unwrap()
            .push(format!("before:{}:{}", ctx.op.as_str(), ctx.resource));
        if ctx.op == CallOp::KvPut && !ctx.resource.starts_with("/app/") {
            CallDecision::Deny("writes must live under /app/".into())
        } else {
            CallDecision::Allow
        }
    }

    fn after(&self, ctx: &CallCtx, outcome: &CallOutcome) {
        self.log.lock().unwrap().push(format!(
            "after:{}:{}:ok={}",
            ctx.op.as_str(),
            ctx.resource,
            outcome.ok
        ));
    }
}

fn ctx(plugin: &str, op: CallOp, resource: &str) -> CallCtx {
    CallCtx {
        plugin: plugin.into(),
        op,
        resource: resource.into(),
        payload_bytes: 3,
    }
}

#[test]
fn before_denies_and_after_observes() {
    let log = Arc::new(Mutex::new(Vec::new()));
    let mut registry = HookRegistry::new();
    registry.register("*", Arc::new(AuditHook { log: Arc::clone(&log) }));

    assert_eq!(
        registry.before(&ctx("counter", CallOp::KvRange, "/app/counter/a")),
        CallDecision::Allow
    );
    match registry.before(&ctx("counter", CallOp::KvPut, "/tmp/x")) {
        CallDecision::Deny(reason) => assert!(reason.contains("audit:"), "{reason}"),
        other => panic!("expected deny, got {other:?}"),
    }
    assert_eq!(
        registry.before(&ctx("counter", CallOp::KvPut, "/app/counter/a")),
        CallDecision::Allow
    );

    registry.after(
        &ctx("counter", CallOp::KvPut, "/app/counter/a"),
        &CallOutcome::from_result::<()>(&Ok(())),
    );
    registry.after(
        &ctx("counter", CallOp::KvRange, "/app/counter/a"),
        &CallOutcome::from_result::<()>(&Err(SdkError::not_found("nope"))),
    );

    let stats = registry.stats();
    assert_eq!(stats.before_total, 3);
    assert_eq!(stats.denied_total, 1);
    assert_eq!(stats.after_total, 2);

    let log = log.lock().unwrap().clone();
    assert!(log.contains(&"before:kv_put:/tmp/x".to_string()), "{log:?}");
    assert!(
        log.contains(&"after:kv_range:/app/counter/a:ok=false".to_string()),
        "{log:?}"
    );
}

#[test]
fn plugin_pattern_filters_hooks() {
    let log = Arc::new(Mutex::new(Vec::new()));
    let mut registry = HookRegistry::new();
    registry.register("counter", Arc::new(AuditHook { log: Arc::clone(&log) }));

    assert_eq!(
        registry.before(&ctx("other", CallOp::KvPut, "/tmp/x")),
        CallDecision::Allow,
        "hook registered for 'counter' must not fire for 'other'"
    );
    assert!(log.lock().unwrap().is_empty());
}

struct AlwaysDeny;

impl CallHook for AlwaysDeny {
    fn name(&self) -> &str {
        "always-deny"
    }

    fn before(&self, _ctx: &CallCtx) -> CallDecision {
        CallDecision::Deny("no".into())
    }
}

#[test]
fn deny_short_circuits_remaining_hooks() {
    let log = Arc::new(Mutex::new(Vec::new()));
    let mut registry = HookRegistry::new();
    registry.register("*", Arc::new(AlwaysDeny));
    registry.register("*", Arc::new(AuditHook { log: Arc::clone(&log) }));

    assert!(matches!(
        registry.before(&ctx("p", CallOp::KvPut, "/app/x")),
        CallDecision::Deny(_)
    ));
    assert!(log.lock().unwrap().is_empty(), "later hooks must not run after a deny");
}

#[test]
fn empty_registry_is_free() {
    let mut registry = HookRegistry::new();
    assert!(registry.is_empty());
    assert_eq!(
        registry.before(&ctx("p", CallOp::KvPut, "/x")),
        CallDecision::Allow
    );
    registry.after(
        &ctx("p", CallOp::KvPut, "/x"),
        &CallOutcome {
            ok: true,
            error_code: None,
        },
    );
}

#[test]
fn op_classification() {
    assert!(CallOp::KvPut.is_write());
    assert!(CallOp::Txn.is_write());
    assert!(!CallOp::KvRange.is_write());
    assert_eq!(CallOp::LeaseKeepAlive.as_str(), "lease_keepalive");
}

#[test]
fn same_pattern_and_name_replaces() {
    let mut registry = HookRegistry::new();
    registry.register("*", Arc::new(AlwaysDeny));
    registry.register("p", Arc::new(AlwaysDeny));
    assert_eq!(registry.len(), 2);
    registry.register("*", Arc::new(AlwaysDeny));
    assert_eq!(registry.len(), 2);
    assert_eq!(
        registry.before(&ctx("p", CallOp::KvGet, "/x")),
        CallDecision::Deny("always-deny: no".into())
    );
}

#[test]
fn outcome_carries_the_error_class() {
    let outcome = CallOutcome::from_result::<u8>(&Err(SdkError::conflict("taken")));
    assert!(!outcome.ok);
    assert_eq!(outcome.error_code, Some(SdkErrorCode::Conflict));
}

#[test]
fn a_hook_is_known_by_the_name_that_it_says() {
    struct Renamed(Mutex<&'static str>);
    impl CallHook for Renamed {
        fn name(&self) -> &str {
            *self.0.lock().unwrap()
        }
        fn before(&self, _ctx: &CallCtx) -> CallDecision {
            CallDecision::Deny("no".into())
        }
    }
    let mut registry = HookRegistry::default();
    let first = Arc::new(Renamed(Mutex::new("old")));
    registry.register("*", first.clone());
    *first.0.lock().unwrap() = "new";
    assert_eq!(
        registry.before(&ctx("p", CallOp::KvGet, "/k")),
        CallDecision::Deny("new: no".into())
    );
    registry.register("*", Arc::new(Renamed(Mutex::new("old"))));
    assert_eq!(registry.len(), 2);
    registry.register("p", Arc::new(Renamed(Mutex::new("old"))));
    assert_eq!(registry.len(), 3);
    registry.register("*", Arc::new(Renamed(Mutex::new("new"))));
    assert_eq!(registry.len(), 3);
}
