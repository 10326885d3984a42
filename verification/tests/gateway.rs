use coord_agent::plugin::gateway::{
    ctx_from_parts, judge, unbuffered_status, GatewayDecision, GatewayHook, GatewayIdentity,
    GatewayRequestCtx, GatewayRoute, GatewayVerdict, PluginGateway, RequestParts,
};
use coord_agent::status::StatusCode;
use std::sync::{Arc, Mutex};

fn parts(path: &str) -> RequestParts {
    RequestParts {
        path: path.into(),
        method: "POST".into(),
        headers: vec![],
        identity: None,
    }
}

/// Refuses writes and records what it saw.
struct DenyWrites {
    touched: Arc<Mutex<Vec<String>>>,
}

impl GatewayHook for DenyWrites {
    fn name(&self) -> &str {
        "deny-writes"
    }

    fn before(&self, ctx: &GatewayRequestCtx) -> GatewayDecision {
        self.touched.lock().unwrap().push(ctx.path.clone());
        if ctx.path.ends_with("/Put") {
            GatewayDecision::deny("writes are blocked by plugin policy")
        } else {
            GatewayDecision::Allow
        }
    }

    fn after(&self, ctx: &GatewayRequestCtx, status: u16) {
        self.touched
            .lock()
            .unwrap()
            .push(format!("after:{}:{status}", ctx.path));
    }
}

/// Wants the body and records its length.
struct BodyTap {
    seen_len: Arc<Mutex<usize>>,
}

impl GatewayHook for BodyTap {
    fn name(&self) -> &str {
        "body-tap"
    }

    fn wants_body(&self) -> bool {
        true
    }

    fn before(&self, ctx: &GatewayRequestCtx) -> GatewayDecision {
        *self.seen_len.lock().unwrap() += ctx.body_len();
        GatewayDecision::Allow
    }
}

/// Sends a request through the gateway and answers 200 where it is forwarded.
fn send(gateway: &mut PluginGateway, path: &str, body: &[u8], reached: &mut Vec<String>) -> Option<StatusCode> {
    let route = gateway.call(path);
    if let GatewayRoute::Passthrough | GatewayRoute::Observe = route {
        reached.push(path.to_string());
        return None;
    }
    let buffered = if let GatewayRoute::Buffer = route { Some(body.to_vec()) } else { None };
    let ctx = ctx_from_parts(parts(path), buffered);
    match judge(gateway.evaluate_before(&ctx)) {
        GatewayVerdict::Refuse(status) => Some(status.code),
        GatewayVerdict::Forward => {
            reached.push(path.to_string());
            if route.observes_response() {
                gateway.note_after(&ctx, 200);
            }
            None
        }
    }
}

#[test]
fn passthrough_when_no_hooks_and_no_watched_paths() {
    let mut gateway = PluginGateway::new();
    assert!(gateway.is_passthrough());
    let mut seen = Vec::new();
    assert!(send(&mut gateway, "/coord.kv.KV/Put", b"", &mut seen).is_none());
    assert_eq!(seen, ["/coord.kv.KV/Put"]);
    assert_eq!(gateway.requests_total(), 0);
}

#[test]
fn hook_denies_write_and_allows_read() {
    let mut gateway = PluginGateway::new();
    let touched = Arc::new(Mutex::new(Vec::new()));
    gateway.register_hook(Arc::new(DenyWrites { touched: Arc::clone(&touched) }));
    assert_eq!(gateway.hook_count(), 1);
    let mut seen = Vec::new();

    assert!(send(&mut gateway, "/coord.kv.KV/Range", b"", &mut seen).is_none());
    assert!(matches!(
        send(&mut gateway, "/coord.kv.KV/Put", b"", &mut seen),
        Some(StatusCode::PermissionDenied)
    ));

    assert_eq!(seen, ["/coord.kv.KV/Range"]);
    assert_eq!(gateway.requests_total(), 2);
    assert_eq!(gateway.denied_total(), 1);
    let log = touched.lock().unwrap().clone();
    assert!(log.contains(&"/coord.kv.KV/Range".to_string()), "{log:?}");
    assert!(
        log.contains(&"after:/coord.kv.KV/Range:200".to_string()),
        "{log:?}"
    );
}

#[test]
fn watched_path_counting_works_without_hooks() {
    let mut gateway = PluginGateway::new();
    gateway.watch_path("/coord.kv.KV/Range");
    assert!(!gateway.is_passthrough());
    let mut seen = Vec::new();
    send(&mut gateway, "/coord.kv.KV/Range", b"", &mut seen);
    send(&mut gateway, "/coord.kv.KV/Put", b"", &mut seen);
    assert_eq!(gateway.requests_total(), 2);
    assert_eq!(gateway.path_count("/coord.kv.KV/Range"), Some(1));
    assert_eq!(gateway.path_count("/coord.kv.KV/Put"), None);
    assert_eq!(seen.len(), 2);
}

#[test]
fn body_tap_buffers_and_forwards_intact() {
    let mut gateway = PluginGateway::new();
    let seen_len = Arc::new(Mutex::new(0));
    gateway.register_hook(Arc::new(BodyTap { seen_len: Arc::clone(&seen_len) }));
    assert!(gateway.needs_body());
    let mut seen = Vec::new();
    assert!(send(&mut gateway, "/coord.kv.KV/Put", b"12345", &mut seen).is_none());
    assert_eq!(*seen_len.lock().unwrap(), 5);
    assert_eq!(seen, ["/coord.kv.KV/Put"]);
}

#[test]
fn identity_extension_is_visible_to_hooks() {
    let mut p = parts("/coord.kv.KV/Range");
    p.identity = Some(GatewayIdentity {
        subject: "plugin/counter".into(),
        roles: vec!["plugin/counter-role".into()],
    });
    let ctx = ctx_from_parts(p, None);
    assert_eq!(ctx.identity.subject, "plugin/counter");
    assert_eq!(ctx.identity.roles, ["plugin/counter-role"]);
    assert_eq!(ctx.body_len(), 0);
    assert_eq!(ctx.method, "POST");
    assert!(ctx.body_prefix.is_none());
}

#[test]
fn headers_are_found_by_their_exact_name() {
    let mut p = parts("/x");
    p.headers = vec![
        ("X-Trace".into(), Some("1".into())),
        ("x-binary".into(), None),
        ("x-trace".into(), Some("2".into())),
    ];
    let ctx = ctx_from_parts(p, Some(vec![7; 3]));
    assert_eq!(ctx.header("x-trace"), Some("1"));
    assert_eq!(ctx.header("X-Trace"), None);
    assert_eq!(ctx.header("x-missing"), None);
    assert_eq!(ctx.body_len(), 3);
    assert_eq!(ctx.identity.subject, "");
}

#[test]
fn refusals_carry_their_code() {
    match judge(GatewayDecision::deny("no")) {
        GatewayVerdict::Refuse(s) => {
            assert!(matches!(s.code, StatusCode::PermissionDenied));
            assert_eq!(s.message, "no");
        }
        GatewayVerdict::Forward => panic!("denied"),
    }
    match judge(GatewayDecision::deny_with(StatusCode::Unavailable, "later")) {
        GatewayVerdict::Refuse(s) => {
            assert!(matches!(s.code, StatusCode::Unavailable));
            assert_eq!(s.message, "later");
        }
        GatewayVerdict::Forward => panic!("denied"),
    }
    assert!(matches!(judge(GatewayDecision::Allow), GatewayVerdict::Forward));
}

#[test]
fn unreadable_bodies_are_reported() {
    let s = unbuffered_status("reset");
    assert!(s.message.contains("reset"), "{}", s.message);
}

#[test]
fn the_first_refusal_ends_the_round() {
    let mut gateway = PluginGateway::new();
    let first = Arc::new(Mutex::new(Vec::new()));
    let second = Arc::new(Mutex::new(Vec::new()));
    struct Named(&'static str, Arc<Mutex<Vec<String>>>);
    impl GatewayHook for Named {
        fn name(&self) -> &str {
            self.0
        }
        fn before(&self, ctx: &GatewayRequestCtx) -> GatewayDecision {
            self.1.lock().unwrap().push(ctx.path.clone());
            GatewayDecision::deny(self.0)
        }
    }
    gateway.register_hook(Arc::new(Named("one", Arc::clone(&first))));
    gateway.register_hook(Arc::new(Named("two", Arc::clone(&second))));
    let ctx = ctx_from_parts(parts("/p"), None);
    let decision = gateway.evaluate_before(&ctx);
    assert!(!gateway.on_decision(&GatewayDecision::Allow));
    match decision {
        GatewayDecision::Deny { reason, .. } => assert_eq!(reason, "one"),
        GatewayDecision::Allow => panic!("denied"),
    }
    assert_eq!(first.lock().unwrap().len(), 1);
    assert!(second.lock().unwrap().is_empty());
    assert_eq!(gateway.denied_total(), 1);
}

#[test]
fn a_gateway_by_default_lets_everything_through() {
    let mut gateway = PluginGateway::default();
    assert!(gateway.is_passthrough());
    let ctx = GatewayRequestCtx::default();
    assert_eq!(ctx.body_len(), 0);
    assert_eq!(gateway.evaluate_before(&ctx).clone(), GatewayDecision::Allow);
}
