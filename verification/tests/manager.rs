use coord_agent::counters::Count;
use coord_agent::plugin::fingerprint::content_fingerprint_bytes;
use coord_agent::plugin::grpc::AgentGrpcService;
use coord_agent::plugin::lifecycle::{StartAction, StartRun};
use coord_agent::plugin::manifest::{
    PluginEngineConfig, PluginLimits, PluginManifest, PluginRuntime, PluginSource, PluginTrust,
};
use coord_agent::plugin::registry::{PluginManager, PluginRecord, PluginStatus};
use coord_agent::plugin::reload::{PluginReloadReport, ReloadAction, ReloadEvent};
use std::collections::BTreeMap;

fn manifest(name: &str) -> PluginManifest {
    PluginManifest {
        name: name.into(),
        version: "1.0.0".into(),
        runtime: PluginRuntime::Js,
        trust: PluginTrust::FirstParty,
        entry: "index.js".into(),
        capabilities: vec![],
        limits: PluginLimits::default(),
        hooks: false,
        source: PluginSource::default(),
    }
}

fn record(name: &str) -> PluginRecord {
    PluginRecord {
        name: name.into(),
        version: "1.0.0".into(),
        builtin: false,
        fingerprint: None,
    }
}

fn builtin(name: &str) -> PluginRecord {
    PluginRecord { builtin: true, ..record(name) }
}

/// Plugins as they run: which are started, which refuse to.
#[derive(Default)]
struct World {
    started: BTreeMap<String, bool>,
    failing: Vec<String>,
    failing_init: Vec<String>,
}

impl World {
    fn start(&mut self, name: &str) -> Result<(), String> {
        if self.failing.iter().any(|n| n == name) {
            return Err("boom".into());
        }
        self.started.insert(name.into(), true);
        Ok(())
    }

    fn init(&mut self, name: &str) -> Result<(), String> {
        if self.failing_init.iter().any(|n| n == name) {
            return Err("no init".into());
        }
        Ok(())
    }

    fn healthy(&self, manager: &PluginManager) -> Vec<bool> {
        manager
            .names()
            .iter()
            .map(|n| self.started.get(n).copied().unwrap_or(false))
            .collect()
    }

    fn status(&self, name: &str) -> PluginStatus {
        if self.started.get(name).copied().unwrap_or(false) {
            PluginStatus::Started
        } else {
            PluginStatus::Stopped
        }
    }
}

fn start_all(manager: &mut PluginManager, world: &mut World) -> Vec<(String, String)> {
    let mut run: StartRun = manager.start_all();
    loop {
        let outcome = match run.action() {
            StartAction::Init(i) => {
                let name = run.name(i).to_string();
                world.init(&name)
            }
            StartAction::Start(i) => {
                let name = run.name(i).to_string();
                world.start(&name)
            }
            StartAction::Done => return run.into_failures(),
        };
        run = run.advance(manager, outcome);
    }
}

fn stop_all(manager: &mut PluginManager, world: &mut World) {
    for name in manager.stop_all() {
        world.started.insert(name, false);
    }
}

fn reload(
    manager: &mut PluginManager,
    world: &mut World,
    desired: &[PluginManifest],
    loader: Option<&BTreeMap<String, String>>,
) -> PluginReloadReport {
    let mut run = manager.reload(desired, loader.is_some());
    loop {
        let event = match run.action() {
            ReloadAction::Stop(name) => {
                world.started.insert(name, false);
                ReloadEvent::Stopped(Ok(()))
            }
            ReloadAction::Fingerprint(i) => {
                let name = run.wanted_manifest(i).name.clone();
                ReloadEvent::Fingerprinted {
                    fingerprint: loader.and_then(|l| l.get(&name).cloned()),
                    failed: world.status(&name).is_failed(),
                }
            }
            ReloadAction::Load(i) => {
                let m = run.wanted_manifest(i);
                ReloadEvent::Loaded(Ok(PluginRecord {
                    name: m.name.clone(),
                    version: m.version.clone(),
                    builtin: false,
                    fingerprint: loader.and_then(|l| l.get(&m.name).cloned()),
                }))
            }
            ReloadAction::Init(name) => ReloadEvent::Ran(world.init(&name)),
            ReloadAction::Start(name) => ReloadEvent::Ran(world.start(&name)),
            ReloadAction::Finished => return run.into_report(),
        };
        run = run.advance(manager, event);
    }
}

fn manager() -> PluginManager {
    PluginManager::new(PluginEngineConfig::default())
}

#[test]
fn duplicate_registration_is_rejected() {
    let mut manager = manager();
    manager.register(record("dup")).unwrap();
    let err = manager.register(record("dup")).unwrap_err();
    assert!(err.contains("already registered"), "{err}");
    assert_eq!(manager.len(), 1);
}

#[test]
fn lifecycle_and_health_cover_every_registered_plugin() {
    let mut manager = manager();
    let mut world = World::default();
    manager.register_builtin(builtin("native-like")).unwrap();
    manager.register(record("script")).unwrap();

    let (healthy, total, unhealthy) = manager.health_check_all(&world.healthy(&manager));
    assert_eq!((healthy, total), (0, 2));
    assert_eq!(unhealthy.len(), 2, "nothing started yet");

    let failures = start_all(&mut manager, &mut world);
    assert!(failures.is_empty(), "{failures:?}");
    let (healthy, total, unhealthy) = manager.health_check_all(&world.healthy(&manager));
    assert_eq!((healthy, total), (2, 2));
    assert!(unhealthy.is_empty());

    stop_all(&mut manager, &mut world);
    assert_eq!(manager.health_check_all(&world.healthy(&manager)).0, 0);
}

#[test]
fn register_builtin_requires_the_marker() {
    let mut manager = manager();
    let err = manager.register_builtin(record("p")).unwrap_err();
    assert!(err.contains("not marked as builtin"), "{err}");
    assert!(manager.is_empty());
}

#[test]
fn reload_preserves_builtin_plugins() {
    let mut manager = manager();
    let mut world = World::default();
    manager.register_builtin(builtin("registry")).unwrap();
    manager.register(record("user-plugin")).unwrap();
    start_all(&mut manager, &mut world);

    let report = reload(&mut manager, &mut world, &[], None);
    assert_eq!(report.removed, vec!["user-plugin".to_string()]);
    assert!(manager.get("registry").is_some());
    assert_eq!(manager.builtin_names(), vec!["registry".to_string()]);
    assert_eq!(world.status("registry"), PluginStatus::Started);
    assert_eq!(world.status("user-plugin"), PluginStatus::Stopped);
}

#[test]
fn reload_rejects_entry_colliding_with_builtin() {
    let mut manager = manager();
    let mut world = World::default();
    manager.register_builtin(builtin("cache")).unwrap();
    start_all(&mut manager, &mut world);

    let report = reload(&mut manager, &mut world, &[manifest("cache")], None);
    assert_eq!(report.failed.len(), 1);
    assert!(report.failed[0].1.contains("builtin"));
    assert!(manager.get("cache").map(|p| p.builtin).unwrap_or(false));
}

#[test]
fn start_all_isolates_failures() {
    let mut manager = manager();
    let mut world = World { failing: vec!["bad".into()], ..World::default() };
    manager.register(record("good")).unwrap();
    manager.register(record("bad")).unwrap();

    let failures = start_all(&mut manager, &mut world);
    assert_eq!(failures.len(), 1);
    assert_eq!(failures[0].0, "bad");
    match manager.status_of("bad", world.status("bad")) {
        Some(PluginStatus::Failed(reason)) => assert_eq!(reason, failures[0].1),
        _ => panic!("a plugin that did not start is marked as failed"),
    }
    let (healthy, total, unhealthy) = manager.health_check_all(&world.healthy(&manager));
    assert_eq!(total, 2);
    assert_eq!(healthy, 1);
    assert_eq!(unhealthy, vec!["bad".to_string()]);

    stop_all(&mut manager, &mut world);
    assert_eq!(manager.health_check_all(&world.healthy(&manager)).0, 0);
}

#[test]
fn stopping_clears_failures() {
    let mut manager = manager();
    let mut world = World { failing: vec!["bad".into()], ..World::default() };
    manager.register(record("bad")).unwrap();
    start_all(&mut manager, &mut world);
    assert!(manager.is_failed("bad"));
    stop_all(&mut manager, &mut world);
    assert!(!manager.is_failed("bad"));
    assert_eq!(manager.status_of("bad", world.status("bad")), Some(PluginStatus::Stopped));
}

#[test]
fn failed_plugins_are_tried_again_at_the_next_reload() {
    let mut manager = manager();
    let mut world = World { failing: vec!["p".into()], ..World::default() };
    let content: BTreeMap<String, String> = [("p".to_string(), "sha256:a".to_string())].into();
    manager
        .register(PluginRecord { fingerprint: Some("sha256:a".into()), ..record("p") })
        .unwrap();
    start_all(&mut manager, &mut world);
    assert!(manager.is_failed("p"));

    let report = reload(&mut manager, &mut world, &[manifest("p")], None);
    assert!(report.is_noop(), "nothing can load it anew");
    let report = reload(&mut manager, &mut world, &[manifest("p")], Some(&content));
    assert_eq!(report.failed.len(), 1, "it still fails");
    assert!(manager.is_failed("p"));

    world.failing.clear();
    let report = reload(&mut manager, &mut world, &[manifest("p")], Some(&content));
    assert_eq!(report.replaced, vec!["p".to_string()]);
    assert_eq!(manager.status_of("p", world.status("p")), Some(PluginStatus::Started));
    let report = reload(&mut manager, &mut world, &[manifest("p")], Some(&content));
    assert!(report.is_noop());
}

#[test]
fn failures_are_counted() {
    let mut manager = manager();
    let mut world = World { failing: vec!["bad".into()], ..World::default() };
    manager.register(record("good")).unwrap();
    manager.register(record("bad")).unwrap();
    let mut run = manager.start_all();
    loop {
        let outcome = match run.action() {
            StartAction::Init(_) => Ok(()),
            StartAction::Start(i) => world.start(&run.name(i).to_string()),
            StartAction::Done => break,
        };
        run = run.advance(&mut manager, outcome);
    }
    let bad = || Count::LoadFailure { plugin: "bad".into() };
    assert_eq!(run.counts(), vec![bad()]);

    let loader: BTreeMap<String, String> = BTreeMap::new();
    let mut nameless = manifest("x");
    nameless.name = String::new();
    let wanted = [nameless, manifest("bad"), manifest("good")];
    let report = reload(&mut manager, &mut world, &wanted, Some(&loader));
    assert_eq!(report.counts(), vec![Count::LoadFailure { plugin: String::new() }, bad()]);
    assert!(PluginReloadReport::default().counts().is_empty());
}

#[test]
fn a_failed_init_is_not_started() {
    let mut manager = manager();
    let mut world = World { failing_init: vec!["a".into()], ..World::default() };
    manager.register(record("a")).unwrap();
    manager.register(record("b")).unwrap();
    let failures = start_all(&mut manager, &mut world);
    assert_eq!(failures.len(), 1);
    assert_eq!(failures[0].0, "a");
    assert!(failures[0].1.contains("no init"), "{}", failures[0].1);
    assert_eq!(
        manager.status_of("a", world.status("a")),
        Some(PluginStatus::Failed("init failed: no init".into()))
    );
    assert_eq!(manager.status_of("b", world.status("b")), Some(PluginStatus::Started));
    assert_eq!(manager.status_of("c", PluginStatus::Started), None);

    world.failing_init.clear();
    assert!(start_all(&mut manager, &mut world).is_empty());
    assert_eq!(manager.status_of("a", world.status("a")), Some(PluginStatus::Started));
}

#[test]
fn reload_removes_and_defers_without_loader() {
    let mut manager = manager();
    let mut world = World::default();
    manager.register(record("old")).unwrap();
    start_all(&mut manager, &mut world);

    let report = reload(&mut manager, &mut world, &[manifest("new")], None);
    assert_eq!(report.removed, vec!["old".to_string()]);
    assert_eq!(report.deferred, vec!["new".to_string()]);
    assert!(report.failed.is_empty());
    assert_eq!(manager.names(), Vec::<String>::new());
}

#[test]
fn reload_replaces_on_content_change_without_version_bump() {
    let mut manager = manager();
    let mut world = World::default();
    let wanted = vec![manifest("p")];
    let v_a: BTreeMap<String, String> = [("p".to_string(), "sha256:a".to_string())].into();
    manager
        .register(PluginRecord { fingerprint: Some("sha256:a".into()), ..record("p") })
        .unwrap();
    start_all(&mut manager, &mut world);

    let report = reload(&mut manager, &mut world, &wanted, Some(&v_a));
    assert!(report.is_noop(), "identical content must not reload");
    assert_eq!(manager.status_of("p", world.status("p")), Some(PluginStatus::Started));

    let v_b: BTreeMap<String, String> = [("p".to_string(), "sha256:b".to_string())].into();
    let report = reload(&mut manager, &mut world, &wanted, Some(&v_b));
    assert_eq!(report.replaced, vec!["p".to_string()]);
    assert!(report.added.is_empty() && report.failed.is_empty());
    assert_eq!(
        manager.get("p").unwrap().fingerprint.as_deref(),
        Some("sha256:b")
    );
    assert_eq!(manager.status_of("p", world.status("p")), Some(PluginStatus::Started));
}

#[test]
fn reload_ignores_content_when_no_fingerprint_available() {
    let mut manager = manager();
    let mut world = World::default();
    let wanted = vec![manifest("p")];
    manager.register(record("p")).unwrap();
    start_all(&mut manager, &mut world);

    let loader: BTreeMap<String, String> = [("p".to_string(), "sha256:b".to_string())].into();
    let report = reload(&mut manager, &mut world, &wanted, Some(&loader));
    assert!(report.is_noop(), "no loaded fingerprint, so no reload");

    let silent: BTreeMap<String, String> = BTreeMap::new();
    let report = reload(&mut manager, &mut world, &wanted, Some(&silent));
    assert!(report.is_noop());
}

#[test]
fn reload_adds_and_starts_new_plugins() {
    let mut manager = manager();
    let mut world = World { failing: vec!["bad".into()], ..World::default() };
    let loader: BTreeMap<String, String> = BTreeMap::new();
    let wanted = vec![manifest("good"), manifest("bad")];
    let report = reload(&mut manager, &mut world, &wanted, Some(&loader));
    assert_eq!(report.added, vec!["good".to_string()]);
    assert_eq!(report.failed.len(), 1);
    assert_eq!(report.failed[0].0, "bad");
    assert_eq!(world.status("good"), PluginStatus::Started);
}

#[test]
fn reload_replaces_on_a_new_version() {
    let mut manager = manager();
    let mut world = World::default();
    manager.register(record("p")).unwrap();
    start_all(&mut manager, &mut world);
    let mut wanted = manifest("p");
    wanted.version = "2.0.0".into();
    let loader: BTreeMap<String, String> = BTreeMap::new();
    let report = reload(&mut manager, &mut world, &[wanted], Some(&loader));
    assert_eq!(report.replaced, vec!["p".to_string()]);
    assert_eq!(manager.get("p").unwrap().version, "2.0.0");
}

#[test]
fn invalid_entries_fail_alone() {
    let mut manager = manager();
    let mut world = World::default();
    let mut broken = manifest("broken");
    broken.entry = "../evil.js".into();
    let loader: BTreeMap<String, String> = BTreeMap::new();
    let report = reload(&mut manager, &mut world, &[broken, manifest("fine")], Some(&loader));
    assert_eq!(report.added, vec!["fine".to_string()]);
    assert_eq!(report.failed.len(), 1);
    assert_eq!(report.failed[0].0, "broken");
}

#[test]
fn registry_is_listed_and_emptied() {
    let mut manager = manager();
    assert!(!manager.is_enabled());
    manager.register(record("b")).unwrap();
    manager.register(record("a")).unwrap();
    assert_eq!(manager.names(), vec!["a", "b"]);
    assert_eq!(manager.unregister("a").map(|p| p.name), Some("a".to_string()));
    assert!(manager.unregister("a").is_none());
    assert_eq!(manager.len(), 1);
    assert!(manager.builtin_names().is_empty());
    assert_eq!(manager.config().dir, PluginEngineConfig::default().dir);
}

#[test]
fn statuses_have_names() {
    assert_eq!(PluginStatus::Loaded.as_str(), "loaded");
    assert_eq!(PluginStatus::Started.as_str(), "started");
    assert_eq!(PluginStatus::Stopped.as_str(), "stopped");
    assert_eq!(PluginStatus::Failed("x".into()).as_str(), "failed");
    assert!(PluginStatus::Started.is_started());
    assert!(!PluginStatus::Loaded.is_started());
}

#[test]
fn only_started_plugins_mount_their_services() {
    let mut manager = manager();
    manager.register_builtin(builtin("cache")).unwrap();
    manager.register_builtin(builtin("lock")).unwrap();
    manager.register(record("script")).unwrap();
    let services = manager.grpc_services(&[
        (PluginStatus::Started, Some(AgentGrpcService::Cache)),
        (PluginStatus::Stopped, Some(AgentGrpcService::Lock)),
        (PluginStatus::Started, None),
    ]);
    let names: Vec<&str> = services.iter().map(|s| s.name()).collect();
    assert_eq!(names, vec!["cache"]);
}

#[test]
fn content_fingerprint_is_deterministic_sha256() {
    let a = content_fingerprint_bytes(b"export default 1;");
    let b = content_fingerprint_bytes(b"export default 1;");
    let c = content_fingerprint_bytes(b"export default 2;");
    assert_eq!(a, b);
    assert_ne!(a, c);
    assert!(a.starts_with("sha256:"), "fingerprint must be tagged: {a}");
    assert_eq!(a.len(), "sha256:".len() + 64);
    assert_eq!(
        content_fingerprint_bytes(b"abc"),
        "sha256:ba7816bf8f01cfea414140de5dae2223b00361a396177a9cb410ff61f20015ad"
    );
}
