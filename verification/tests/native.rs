use coord_agent::plugin::grpc::AgentGrpcService;
use coord_agent::plugin::manifest::PluginRuntime;
use coord_agent::plugin::native::{
    default_native_engine_config, native_manifest, NativePluginAdapter, AGENT_VERSION,
};
use coord_agent::plugin::registry::PluginStatus;
use coord_agent::plugin::server::{call_outcome, check_call, plugin_info};
use coord_agent::service::BaseService;
use coord_agent::status::StatusCode;
use std::sync::atomic::{AtomicBool, Ordering};
use std::sync::Arc;

struct Stub {
    name: &'static str,
    started: AtomicBool,
}

impl Stub {
    fn new(name: &'static str) -> Arc<Self> {
        Arc::new(Stub { name, started: AtomicBool::new(false) })
    }

    fn set(&self, v: bool) -> Result<(), String> {
        self.started.store(v, Ordering::Release);
        Ok(())
    }
}

impl BaseService for Stub {
    fn name(&self) -> &'static str {
        self.name
    }

    fn health_check(&self) -> bool {
        self.started.load(Ordering::Acquire)
    }
}

#[test]
fn adapter_forwards_lifecycle_and_keeps_name() {
    let svc = Stub::new("stub");
    let mut adapter = NativePluginAdapter::new(svc.clone());
    assert_eq!(adapter.name(), "stub");
    assert_eq!(adapter.manifest().runtime, PluginRuntime::Native);
    assert!(adapter.is_builtin(), "native adapters are builtin plugins");
    assert_eq!(adapter.status(), PluginStatus::Stopped);

    adapter.on_start(svc.set(true)).unwrap();
    assert!(adapter.health_check());
    assert_eq!(adapter.status(), PluginStatus::Started);

    adapter.on_stop(svc.set(false)).unwrap();
    assert!(!adapter.health_check());
    assert_eq!(adapter.status(), PluginStatus::Stopped);
}

#[test]
fn adapter_owns_the_underlying_service_lifecycle() {
    let svc = Stub::new("stub");
    let mut adapter = NativePluginAdapter::new(svc.clone());
    adapter.on_start(svc.set(true)).unwrap();
    assert!(adapter.service().health_check());
    adapter.on_stop(svc.set(false)).unwrap();
    assert!(!adapter.service().health_check());
}

#[test]
fn grpc_face_is_exposed_and_health_tracks_lifecycle() {
    let cb = Stub::new("circuit_breaker");
    let mut adapter =
        NativePluginAdapter::new(cb.clone()).with_grpc(AgentGrpcService::CircuitBreaker);
    assert_eq!(adapter.name(), "circuit_breaker");
    assert!(!adapter.health_check(), "not started, so not healthy");
    assert!(adapter.grpc_service().is_some());
    assert_eq!(
        adapter.grpc_service().map(|s| s.name()),
        Some("circuit_breaker")
    );

    adapter.on_start(cb.set(true)).unwrap();
    assert!(adapter.health_check());
    assert_eq!(adapter.status(), PluginStatus::Started);

    adapter.on_stop(cb.set(false)).unwrap();
    assert!(!adapter.health_check());
    assert_eq!(adapter.status(), PluginStatus::Stopped);
}

#[test]
fn a_service_that_does_not_start_is_not_healthy() {
    let svc = Stub::new("stub");
    let mut adapter = NativePluginAdapter::with_version(svc, "9.9");
    assert_eq!(adapter.on_start(Err("port taken".into())), Err("port taken".into()));
    assert_eq!(adapter.status(), PluginStatus::Stopped);
    assert!(!adapter.is_healthy(true));
    assert_eq!(adapter.manifest().entry, "native:stub");
    assert!(adapter.manifest().capabilities.is_empty());
    assert!(!adapter.manifest().hooks);
    assert_eq!(adapter.manifest().limits.max_memory_mb, 64);
    assert_eq!(adapter.record().version, "9.9");
    assert!(adapter.record().builtin);
    assert_eq!(adapter.record().fingerprint, None);
}

#[test]
fn native_manifests_name_the_service() {
    let m = native_manifest("cache", "1.2");
    assert_eq!(m.name, "cache");
    assert_eq!(m.version, "1.2");
    let mut other = native_manifest("cache", "2.0");
    other.hooks = true;
    let adapter = NativePluginAdapter::new(Stub::new("cache"));
    assert_eq!(adapter.manifest().version, AGENT_VERSION);
    assert!(adapter.with_manifest(other).manifest().hooks);
    assert!(!default_native_engine_config().enabled);
}

#[test]
fn every_service_has_a_name() {
    let all = [
        (AgentGrpcService::Registry, "registry"),
        (AgentGrpcService::ConfigCenter, "config_center"),
        (AgentGrpcService::Lock, "lock"),
        (AgentGrpcService::Cache, "cache"),
        (AgentGrpcService::Pki, "pki"),
    ];
    for (service, name) in all {
        assert_eq!(service.name(), name);
    }
}

/// Calls the echo plugin in some state.
fn invoke(state: Option<PluginStatus>, id: &str, method: &str, payload: &[u8]) -> Result<Vec<u8>, StatusCode> {
    check_call(id, state.as_ref()).map_err(|s| s.code)?;
    let result = if method == "echo" {
        Ok(payload.to_vec())
    } else {
        Err(format!("unknown method '{method}'"))
    };
    call_outcome(id, method, result).map_err(|s| s.code)
}

#[test]
fn invoke_routes_to_plugin_and_echoes_payload() {
    let r = invoke(Some(PluginStatus::Started), "echo", "echo", b"hello");
    assert_eq!(r.ok(), Some(b"hello".to_vec()));
}

#[test]
fn invoke_unknown_plugin_is_not_found() {
    let r = invoke(None, "missing", "echo", b"");
    assert!(matches!(r, Err(StatusCode::NotFound)));
}

#[test]
fn invoke_stopped_plugin_is_unavailable() {
    let r = invoke(Some(PluginStatus::Stopped), "echo", "echo", b"");
    assert!(matches!(r, Err(StatusCode::Unavailable)));
}

#[test]
fn invoke_unknown_method_is_internal_error() {
    let r = invoke(Some(PluginStatus::Started), "echo", "nope", b"");
    assert!(matches!(r, Err(StatusCode::Internal)));
}

#[test]
fn list_reports_loaded_plugins() {
    let m = native_manifest("echo", "0.1.0");
    let info = plugin_info(&m, &PluginStatus::Started, true, false);
    assert_eq!(info.name, "echo");
    assert_eq!(info.runtime, "native");
    assert_eq!(info.status, "started");
    assert!(info.healthy, "started echo plugin must be healthy");
    assert!(!info.builtin);
}

#[test]
fn list_reports_builtin_native_services_with_live_health() {
    let flaky = Stub::new("flaky");
    let mut adapter = NativePluginAdapter::new(flaky.clone());
    adapter.on_start(Ok(())).unwrap();
    let report = |a: &NativePluginAdapter| {
        plugin_info(a.manifest(), &a.status(), a.health_check(), a.is_builtin())
    };
    let info = report(&adapter);
    assert_eq!(info.name, "flaky");
    assert!(info.builtin, "native adapter must be builtin");
    assert_eq!(info.status, "started");
    assert!(!info.healthy, "an unhealthy service must be reported as such");
    flaky.set(true).unwrap();
    assert!(report(&adapter).healthy, "health must be read live");
}
