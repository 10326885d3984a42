//! Which engine loads a plugin.
use crate::plugin::manifest;
use crate::plugin::manifest::{PluginManifest, PluginRuntime};
use vstd::prelude::*;

verus! {

/// An engine that loads plugins from files.
#[derive(Debug, Clone, Copy, PartialEq, Eq, Structural)]
pub enum PluginEngine {
    Js,
    Wasm,
}

/// The engines at hand.
#[derive(Debug, Clone, Copy, PartialEq, Eq, Structural)]
pub struct Engines {
    pub js: bool,
    pub wasm: bool,
}

/// The engine for a runtime, where it is at hand; a native plugin is not loaded from a file.
pub open spec fn engine_for(engines: Engines, runtime: PluginRuntime) -> Option<PluginEngine> {
    match runtime {
        PluginRuntime::Js => if engines.js {
            Some(PluginEngine::Js)
        } else {
            None
        },
        PluginRuntime::Wasm => if engines.wasm {
            Some(PluginEngine::Wasm)
        } else {
            None
        },
        _ => None,
    }
}

/// Why no engine loads a plugin.
pub open spec fn no_engine_text(runtime: PluginRuntime, name: Seq<char>) -> Seq<char> {
    "no engine enabled for runtime '"@ + manifest::runtime_text(runtime) + "' (plugin '"@ + name
        + "'): build with `plugin-js` and/or `plugin-wasm`"@
}

/// The engine that fingerprints a plugin's content; none for a native plugin.
pub fn fingerprint_engine(engines: Engines, manifest: &PluginManifest) -> (r: Option<PluginEngine>)
    ensures
        r == engine_for(engines, manifest.runtime),
{
    match manifest.runtime {
        PluginRuntime::Js => if engines.js {
            Some(PluginEngine::Js)
        } else {
            None
        },
        PluginRuntime::Wasm => if engines.wasm {
            Some(PluginEngine::Wasm)
        } else {
            None
        },
        _ => None,
    }
}

/// The engine that loads a plugin.
pub fn loading_engine(engines: Engines, manifest: &PluginManifest) -> (r: Result<PluginEngine, String>)
    ensures
        match r {
            Ok(e) => engine_for(engines, manifest.runtime) == Some(e),
            Err(e) => engine_for(engines, manifest.runtime) is None && e@ == no_engine_text(
                manifest.runtime,
                manifest.name@,
            ),
        },
{
    match fingerprint_engine(engines, manifest) {
        Some(engine) => Ok(engine),
        None => Err(
            crate::text::join5(
                "no engine enabled for runtime '",
                manifest.runtime.as_str(),
                "' (plugin '",
                manifest.name.as_str(),
                "'): build with `plugin-js` and/or `plugin-wasm`",
            ),
        ),
    }
}

/// Name of an engine's loader.
pub open spec fn loader_text(engine: PluginEngine) -> Seq<char> {
    match engine {
        PluginEngine::Js => "JsPluginLoader"@,
        PluginEngine::Wasm => "WasmPluginLoader"@,
    }
}

/// Runtime that an engine runs.
pub open spec fn engine_runtime(engine: PluginEngine) -> PluginRuntime {
    match engine {
        PluginEngine::Js => PluginRuntime::Js,
        PluginEngine::Wasm => PluginRuntime::Wasm,
    }
}

/// Why an engine refuses a manifest, where it does: a defect first, then the wrong runtime.
pub open spec fn load_refusal(engine: PluginEngine, m: PluginManifest) -> Option<Seq<char>> {
    match manifest::manifest_defect(m) {
        Some(defect) => Some(defect),
        None => if m.runtime == engine_runtime(engine) {
            None
        } else {
            Some(
                loader_text(engine) + " cannot load runtime '"@ + manifest::runtime_text(m.runtime)
                    + "' (plugin '"@ + m.name@ + "')"@,
            )
        },
    }
}

/// Whether an engine takes a manifest.
pub fn check_loadable(engine: PluginEngine, m: &PluginManifest) -> (r: Result<(), String>)
    ensures
        match r {
            Ok(_) => load_refusal(engine, *m) is None,
            Err(e) => load_refusal(engine, *m) == Some(e@),
        },
{
    m.validate()?;
    let fits = match (engine, m.runtime) {
        (PluginEngine::Js, PluginRuntime::Js) => true,
        (PluginEngine::Wasm, PluginRuntime::Wasm) => true,
        _ => false,
    };
    if fits {
        return Ok(());
    }
    let loader = match engine {
        PluginEngine::Js => "JsPluginLoader",
        PluginEngine::Wasm => "WasmPluginLoader",
    };
    let mut text = crate::text::join5(
        loader,
        " cannot load runtime '",
        m.runtime.as_str(),
        "' (plugin '",
        m.name.as_str(),
    );
    text.append("')");
    Err(text)
}

/// Every plugin that the dispatcher hands to an engine is of that engine's runtime, so the engine
/// refuses it for a defect only.
pub proof fn law_dispatch_reaches_the_right_engine(engines: Engines, m: PluginManifest, engine: PluginEngine)
    requires
        engine_for(engines, m.runtime) == Some(engine),
    ensures
        load_refusal(engine, m) == manifest::manifest_defect(m),
{
}

} // verus!
