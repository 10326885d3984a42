use coord_agent::plugin::component_engine::is_component_binary;
use coord_agent::plugin::dispatch::{
    check_loadable, fingerprint_engine, loading_engine, Engines, PluginEngine,
};
use coord_agent::plugin::engine::EngineKind;
use coord_agent::plugin::fingerprint::{content_fingerprint_bytes, fingerprint_text};
use coord_agent::plugin::loading::{compile_failure, content_loaded, plan_load, read_failure};
use coord_agent::plugin::manifest::{
    PluginLimits, PluginManifest, PluginRuntime, PluginSource, PluginTrust,
};
use coord_agent::plugin::paths::{entry_path, normalize_plugin_path, resolve_import, PathPart};

fn manifest(runtime: PluginRuntime) -> PluginManifest {
    PluginManifest {
        name: "p".into(),
        version: "1.0.0".into(),
        runtime,
        trust: PluginTrust::FirstParty,
        entry: "index.js".into(),
        capabilities: vec![],
        limits: PluginLimits::default(),
        hooks: false,
        source: PluginSource::default(),
    }
}

/// Parts of a path, as a reader of paths would take it apart.
fn parts(path: &str) -> Vec<PathPart> {
    let mut out = Vec::new();
    if path.starts_with('/') {
        out.push(PathPart::Root);
    }
    for piece in path.split('/').filter(|p| !p.is_empty()) {
        out.push(match piece {
            "." => PathPart::Current,
            ".." => PathPart::Parent,
            name => PathPart::Name(name.into()),
        });
    }
    out
}

fn text(path: &[PathPart]) -> String {
    let mut out = String::new();
    for part in path {
        match part {
            PathPart::Root => out.push('/'),
            PathPart::Name(n) => {
                if !out.is_empty() && !out.ends_with('/') {
                    out.push('/');
                }
                out.push_str(n);
            }
            PathPart::Parent => out.push_str("<..>"),
            PathPart::Current => out.push_str("<.>"),
        }
    }
    out
}

#[test]
fn paths_are_normalized_without_the_file_system() {
    for (raw, plain) in [
        ("/plugins/a/../b", "/plugins/b"),
        ("/plugins/./x.js", "/plugins/x.js"),
        ("/plugins/a/../../..", "/"),
        ("/plugins", "/plugins"),
    ] {
        let once = normalize_plugin_path(&parts(raw));
        assert_eq!(text(&once), plain, "{raw}");
        assert_eq!(text(&normalize_plugin_path(&once)), plain);
    }
}

#[test]
fn entry_outside_plugin_dir_is_rejected() {
    let dir = parts("/plugins");
    let err = entry_path(&dir, "evil", "../evil.js", &parts("../evil.js")).err().unwrap();
    assert!(err.contains("escapes the plugin dir"), "{err}");
    assert!(entry_path(&dir, "evil", "sub/../../evil.js", &parts("sub/../../evil.js")).is_err());
    assert!(entry_path(&dir, "evil", "/etc/passwd", &parts("/etc/passwd")).is_err());
    let ok = entry_path(&dir, "fine", "p/index.js", &parts("p/index.js")).ok().unwrap();
    assert_eq!(text(&ok), "/plugins/p/index.js");
}

#[test]
fn wasm_entry_outside_plugin_dir_is_rejected() {
    let mut m = manifest(PluginRuntime::Wasm);
    m.entry = "../evil.wasm".into();
    assert!(plan_load(PluginEngine::Wasm, &m, &parts("/plugins"), &parts("../evil.wasm")).is_err());
}

#[test]
fn relative_import_stays_inside_plugin_dir() {
    let root = parts("/plugins");
    let base = parts("/plugins/p/index.js");
    let inside = resolve_import(&root, &base, "./lib.js", &parts("./lib.js")).unwrap();
    assert_eq!(text(&inside), "/plugins/p/lib.js");
    assert!(resolve_import(&root, &base, "../../../etc/x.js", &parts("../../../etc/x.js")).is_none());
    let bare = resolve_import(&root, &base, "shared.js", &parts("shared.js")).unwrap();
    assert_eq!(text(&bare), "/plugins/shared.js");
    assert!(resolve_import(&root, &base, "/etc/x.js", &parts("/etc/x.js")).is_none());
}

#[test]
fn loader_rejects_non_js_runtime() {
    let err = check_loadable(PluginEngine::Js, &manifest(PluginRuntime::Wasm)).unwrap_err();
    assert!(!err.is_empty());
    assert!(check_loadable(PluginEngine::Js, &manifest(PluginRuntime::Js)).is_ok());
}

#[test]
fn wasm_loader_rejects_js_runtime() {
    assert!(check_loadable(PluginEngine::Wasm, &manifest(PluginRuntime::Js)).is_err());
    assert!(check_loadable(PluginEngine::Wasm, &manifest(PluginRuntime::Wasm)).is_ok());
}

#[test]
fn engines_are_chosen_by_runtime() {
    let both = Engines { js: true, wasm: true };
    let none = Engines { js: false, wasm: false };
    assert!(matches!(
        loading_engine(both, &manifest(PluginRuntime::Js)),
        Ok(PluginEngine::Js)
    ));
    assert!(matches!(
        fingerprint_engine(both, &manifest(PluginRuntime::Wasm)),
        Some(PluginEngine::Wasm)
    ));
    assert!(loading_engine(none, &manifest(PluginRuntime::Js)).is_err());
    assert!(fingerprint_engine(none, &manifest(PluginRuntime::Js)).is_none());
    assert!(loading_engine(both, &manifest(PluginRuntime::Native)).is_err());
    assert!(fingerprint_engine(both, &manifest(PluginRuntime::Native)).is_none());
}

#[test]
fn binaries_are_told_apart_by_their_first_bytes() {
    let module = [0x00, 0x61, 0x73, 0x6d, 0x01, 0x00, 0x00, 0x00];
    let component = [0x00, 0x61, 0x73, 0x6d, 0x0d, 0x00, 0x01, 0x00, 0xff];
    assert!(!is_component_binary(&module));
    assert!(is_component_binary(&component));
    assert!(!is_component_binary(&component[..7]));
    let (kind, print) = content_loaded(PluginEngine::Wasm, &component);
    assert!(matches!(kind, EngineKind::Component));
    assert_eq!(print, content_fingerprint_bytes(&component));
    assert!(matches!(content_loaded(PluginEngine::Wasm, &module).0, EngineKind::Wasm));
    assert!(matches!(content_loaded(PluginEngine::Js, &component).0, EngineKind::Js));
}

#[test]
fn fingerprints_are_tagged_hexadecimal() {
    assert_eq!(fingerprint_text(&[0x00, 0xff, 0x1a]), "sha256:00ff1a");
    assert_eq!(fingerprint_text(&[]), "sha256:");
}

#[test]
fn failures_name_plugin_and_file() {
    assert_eq!(
        read_failure(PluginEngine::Js, "p", "/plugins/p.js", "gone"),
        "failed to read plugin 'p' entry /plugins/p.js: gone"
    );
    assert_eq!(
        read_failure(PluginEngine::Wasm, "p", "/plugins/p.wasm", "gone"),
        "failed to read plugin 'p' module /plugins/p.wasm: gone"
    );
    assert_eq!(
        compile_failure(EngineKind::Component, "p", "/p.wasm", "bad"),
        "plugin 'p' component /p.wasm failed to compile: bad"
    );
    assert_eq!(
        compile_failure(EngineKind::Wasm, "p", "/p.wasm", "bad"),
        "plugin 'p' module /p.wasm failed to compile: bad"
    );
}

#[test]
fn loads_are_planned_inside_the_directory() {
    let dir = parts("/plugins");
    let m = manifest(PluginRuntime::Js);
    let path = plan_load(PluginEngine::Js, &m, &dir, &parts("index.js")).ok().unwrap();
    assert_eq!(text(&path), "/plugins/index.js");
    let wrong = plan_load(PluginEngine::Js, &manifest(PluginRuntime::Wasm), &dir, &parts("a"));
    assert!(wrong.is_err());
}
