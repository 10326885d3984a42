//! From a manifest to a loadable plugin: which file it is, and what kind of binary.
use crate::plugin::component_engine;
use crate::plugin::component_engine::is_component_binary;
use crate::plugin::dispatch;
use crate::plugin::dispatch::{check_loadable, PluginEngine};
use crate::plugin::engine::EngineKind;
use crate::plugin::fingerprint;
use crate::plugin::fingerprint::content_fingerprint_bytes;
use crate::plugin::identity::{EnsureRetryPolicy, ENSURE_ATTEMPTS, ENSURE_BACKOFF_NS};
use crate::plugin::manifest;
use crate::plugin::manifest::PluginManifest;
use crate::plugin::paths;
use crate::plugin::paths::{entry_path, PathPart};
use crate::text::join5;
use vstd::prelude::*;

verus! {

/// The file of a plugin: the manifest must be one that the engine takes, and its entry must lie
/// in the plugin directory.
pub fn plan_load(
    engine: PluginEngine,
    m: &PluginManifest,
    dir: &[PathPart],
    entry_parts: &[PathPart],
) -> (r: Result<Vec<PathPart>, String>)
    ensures
        ({
            let full = paths::normalized(
                paths::joined(paths::path_view(dir@), paths::path_view(entry_parts@)),
            );
            match dispatch::load_refusal(engine, *m) {
                Some(refusal) => r matches Err(e) && e@ == refusal,
                None => match r {
                    Ok(path) => paths::lies_in(full, paths::path_view(dir@)) && paths::path_view(
                        path@,
                    ) == full,
                    Err(e) => !paths::lies_in(full, paths::path_view(dir@)) && e@
                        == paths::escapes_text(m.name@, manifest::resolved_entry_of(*m)),
                },
            }
        }),
{
    check_loadable(engine, m)?;
    entry_path(dir, m.name.as_str(), m.resolved_entry(), entry_parts)
}

/// How often the identity of a plugin is tried for when it is loaded: that of a module once, that
/// of a script or of a component until one of several attempts succeeds.
pub fn identity_policy(kind: EngineKind) -> (r: EnsureRetryPolicy)
    ensures
        r.attempts == if kind is Wasm {
            1u32
        } else {
            ENSURE_ATTEMPTS
        },
        r.initial_backoff_ns == ENSURE_BACKOFF_NS,
{
    let attempts: u32 = match kind {
        EngineKind::Wasm => 1,
        _ => ENSURE_ATTEMPTS,
    };
    EnsureRetryPolicy { attempts, initial_backoff_ns: ENSURE_BACKOFF_NS }
}

/// What a plugin's file is called.
pub open spec fn file_noun(engine: PluginEngine) -> Seq<char> {
    match engine {
        PluginEngine::Js => "entry"@,
        PluginEngine::Wasm => "module"@,
    }
}

/// Why a plugin's file could not be read.
pub open spec fn read_failure_text(
    engine: PluginEngine,
    name: Seq<char>,
    path: Seq<char>,
    error: Seq<char>,
) -> Seq<char> {
    "failed to read plugin '"@ + name + "' "@ + file_noun(engine) + " "@ + path + ": "@ + error
}

/// Why a plugin's file could not be read.
pub fn read_failure(engine: PluginEngine, name: &str, path: &str, error: &str) -> (r: String)
    ensures
        r@ == read_failure_text(engine, name@, path@, error@),
{
    let noun = match engine {
        PluginEngine::Js => "entry",
        PluginEngine::Wasm => "module",
    };
    let mut text = join5("failed to read plugin '", name, "' ", noun, " ");
    text.append(path);
    text.append(": ");
    text.append(error);
    text
}

/// What a binary is called.
pub open spec fn binary_noun(kind: EngineKind) -> Seq<char> {
    match kind {
        EngineKind::Component => "component"@,
        _ => "module"@,
    }
}

/// Why a binary could not be compiled.
pub fn compile_failure(kind: EngineKind, name: &str, path: &str, error: &str) -> (r: String)
    ensures
        r@ == "plugin '"@ + name@ + "' "@ + binary_noun(kind) + " "@ + path@
            + " failed to compile: "@ + error@,
{
    let noun = match kind {
        EngineKind::Component => "component",
        _ => "module",
    };
    let mut text = join5("plugin '", name, "' ", noun, " ");
    text.append(path);
    text.append(" failed to compile: ");
    text.append(error);
    text
}

/// What runs a plugin's file: scripts run as such, binaries by their first bytes.
pub open spec fn runner_of(engine: PluginEngine, bytes: Seq<u8>) -> EngineKind {
    match engine {
        PluginEngine::Js => EngineKind::Js,
        PluginEngine::Wasm => if bytes.len() >= 8 && bytes.take(8)
            == component_engine::COMPONENT_LAYER@ {
            EngineKind::Component
        } else {
            EngineKind::Wasm
        },
    }
}

/// What runs a plugin's file, and the fingerprint of its content.
pub fn content_loaded(engine: PluginEngine, bytes: &[u8]) -> (r: (EngineKind, String))
    ensures
        r.0 == runner_of(engine, bytes@),
        r.1@ == fingerprint::fingerprint_of(fingerprint::sha256_digest(bytes@)),
{
    let kind = match engine {
        PluginEngine::Js => EngineKind::Js,
        PluginEngine::Wasm => {
            if is_component_binary(bytes) {
                EngineKind::Component
            } else {
                EngineKind::Wasm
            }
        },
    };
    (kind, content_fingerprint_bytes(bytes))
}

/// Every file that is loaded lies in the plugin directory, and its path holds no way out of it.
pub proof fn law_loaded_files_lie_in_the_plugin_directory(dir: paths::PathView, entry: paths::PathView)
    requires
        paths::lies_in(paths::normalized(paths::joined(dir, entry)), dir),
    ensures
        ({
            let path = paths::normalized(paths::joined(dir, entry));
            paths::plain(path) && path.take(dir.len() as int) == dir
        }),
{
    paths::law_normalized_paths_are_plain(paths::joined(dir, entry));
}

} // verus!
