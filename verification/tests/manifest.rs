use coord_agent::plugin::manifest::{
    PluginCapability, PluginEngineConfig, PluginLimits, PluginManifest, PluginRuntime,
    PluginSource, PluginTrust,
};

fn manifest(name: &str) -> PluginManifest {
    PluginManifest {
        name: name.into(),
        version: "1.0.0".into(),
        runtime: PluginRuntime::Js,
        trust: PluginTrust::FirstParty,
        entry: "index.js".into(),
        capabilities: vec![],
        limits: PluginLimits::default(),
        hooks: false,
        source: PluginSource::default(),
    }
}

#[test]
fn validate_accepts_well_formed_manifest() {
    assert!(manifest("dist-counter").validate().is_ok());
}

#[test]
fn validate_rejects_empty_name_and_entry() {
    let mut m = manifest("x");
    m.name = "  ".into();
    assert!(m.validate().is_err());
    let mut m = manifest("x");
    m.entry = "".into();
    assert!(m.validate().is_err());
}

#[test]
fn validate_rejects_path_traversal() {
    let mut m = manifest("x");
    m.entry = "../evil.js".into();
    assert!(m.validate().is_err());
}

#[test]
fn resolved_entry_prefers_explicit_source_path() {
    let mut m = manifest("x");
    m.source = PluginSource::Path("custom/path.js".into());
    assert_eq!(m.resolved_entry(), "custom/path.js");
    m.source = PluginSource::default();
    assert_eq!(m.resolved_entry(), "index.js");
}

#[test]
fn each_defect_has_its_message() {
    let fail = |change: &dyn Fn(&mut PluginManifest)| {
        let mut m = manifest("p");
        change(&mut m);
        m.validate().unwrap_err()
    };
    assert_eq!(fail(&|m| m.name = "\u{3000}".into()), "plugin name must not be empty");
    assert_eq!(fail(&|m| m.name = "n".repeat(129)), "plugin name too long (max 128)");
    let separators = "plugin name must not contain whitespace or path separators";
    assert_eq!(fail(&|m| m.name = "a/b".into()), separators);
    assert_eq!(fail(&|m| m.name = "a\\b".into()), separators);
    assert_eq!(fail(&|m| m.name = "a\u{a0}b".into()), separators);
    assert_eq!(fail(&|m| m.entry = " \t".into()), "plugin 'p' entry must not be empty");
    assert_eq!(
        fail(&|m| m.entry = "a/../b".into()),
        "plugin 'p' entry must not contain '..' (path traversal)"
    );
    assert_eq!(fail(&|m| m.limits.max_memory_mb = 0), "plugin 'p' max_memory_mb must be > 0");
    assert_eq!(fail(&|m| m.limits.max_exec_ms = 0), "plugin 'p' max_exec_ms must be > 0");
    assert_eq!(fail(&|m| m.limits.max_objects = 0), "plugin 'p' max_objects must be > 0");
    assert_eq!(
        fail(&|m| m.capabilities.push(PluginCapability { id: " ".into(), scope: "/a".into() })),
        "plugin 'p' declares an empty capability id"
    );
}

#[test]
fn name_length_is_counted_in_bytes() {
    assert!(manifest(&"n".repeat(128)).validate().is_ok());
    assert!(manifest(&"\u{e9}".repeat(64)).validate().is_ok());
    assert!(manifest(&"\u{e9}".repeat(65)).validate().is_err());
}

#[test]
fn engine_defaults() {
    let cfg = PluginEngineConfig::default();
    assert!(!cfg.enabled);
    assert!(cfg.hooks_enabled);
    assert_eq!(cfg.dir, "/var/lib/coord-agent/plugins");
    assert_eq!(cfg.default_limits.max_memory_mb, 64);
    assert_eq!(cfg.default_limits.max_exec_ms, 30_000);
    assert_eq!(cfg.default_limits.max_objects, 64);
    assert!(cfg.env.is_empty());
    assert!(cfg.entries.is_empty());
    assert_eq!(PluginRuntime::Wasm.as_str(), "wasm");
    assert_eq!(PluginTrust::ThirdParty.as_str(), "third_party");
}
