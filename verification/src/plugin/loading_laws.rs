//! Which plugins are loaded, from which files, by which engine, and what callers see of them.
use crate::plugin::dispatch::{
    check_loadable, fingerprint_engine, loading_engine, Engines, PluginEngine,
};
use crate::plugin::engine::EngineKind;
use crate::plugin::fingerprint;
use crate::plugin::fingerprint::{content_fingerprint_bytes, fingerprint_text};
use crate::plugin::grpc::AgentGrpcService;
use crate::plugin::identity::EnsureRetryPolicy;
use crate::plugin::loading::{
    compile_failure, content_loaded, identity_policy, plan_load, read_failure,
};
use crate::plugin::manifest;
use crate::plugin::manifest::{
    PluginEngineConfig, PluginLimits, PluginManifest, PluginRuntime, PluginSource, PluginTrust,
};
use crate::plugin::native;
use crate::plugin::native::{native_manifest, NativePluginAdapter};
use crate::plugin::paths;
use crate::plugin::paths::{entry_path, normalize_plugin_path, resolve_import, PathPart};
use crate::plugin::registry::{PluginRecord, PluginStatus};
use crate::plugin::server::{call_outcome, check_call, plugin_info, PluginInfo};
use crate::service::{BaseService, ServiceConfig};
use crate::status::CallStatus;
use crate::text;
use vstd::prelude::*;
use vstd::utf8::*;

verus! {

// ---- manifests ----

/// A text that shows something: some character of it is no white space.
pub open spec fn shows_something(s: Seq<char>) -> bool {
    exists|i: int| 0 <= i < s.len() && !text::is_white(#[trigger] s[i])
}

/// A text without white space and without path separators.
pub open spec fn one_word(s: Seq<char>) -> bool {
    forall|i: int|
        0 <= i < s.len() ==> !text::is_white(#[trigger] s[i]) && s[i] != '/' && s[i] != '\\'
}

/// A text in which one dot follows another.
pub open spec fn two_dots(s: Seq<char>) -> bool {
    exists|i: int| 0 <= i < s.len() - 1 && #[trigger] s[i] == '.' && s[i + 1] == '.'
}

proof fn lemma_two_dots(s: Seq<char>)
    ensures
        two_dots(s) <==> text::has_part(s, ".."@),
{
    reveal_strlit("..");
    if two_dots(s) {
        let i = choose|i: int| 0 <= i < s.len() - 1 && #[trigger] s[i] == '.' && s[i + 1] == '.';
        assert(s.subrange(i, i + 2) =~= ".."@);
        assert(text::part_at(s, ".."@, i));
    }
    if text::has_part(s, ".."@) {
        let at = choose|at: int| #[trigger] text::part_at(s, ".."@, at);
        let part = s.subrange(at, at + 2);
        assert(part[0] == '.' && part[1] == '.');
        assert(s[at] == '.' && s[at + 1] == '.');
    }
}

/// A manifest is taken exactly where it has a name of one word of at most 128 bytes, an entry that
/// never climbs, no limit of zero, and a name for every capability.
pub proof fn law_sound_manifests_are_taken(m: PluginManifest, r: Result<(), String>)
    requires
        call_ensures(PluginManifest::validate, (&m,), r),
    ensures
        r is Ok <==> {
            &&& shows_something(m.name@) && one_word(m.name@)
            &&& encode_utf8(m.name@).len() <= 128
            &&& shows_something(m.entry@) && !two_dots(m.entry@)
            &&& m.limits.max_memory_mb > 0 && m.limits.max_exec_ms > 0 && m.limits.max_objects > 0
            &&& forall|i: int|
                0 <= i < m.capabilities@.len() ==> shows_something(#[trigger] m.capabilities@[i].id@)
        },
{
    lemma_two_dots(m.entry@);
    assert(one_word(m.name@) <==> !exists|i: int|
        0 <= i < m.name@.len() && manifest::bad_name_char(#[trigger] m.name@[i]));
}

/// A manifest that is refused is refused for what is wrong with it.
pub proof fn law_refused_manifests_learn_why(m: PluginManifest, e: String)
    requires
        call_ensures(PluginManifest::validate, (&m,), Err(e)),
    ensures
        e@ == "plugin name must not be empty"@ || e@ == "plugin name too long (max 128)"@ || e@
            == "plugin name must not contain whitespace or path separators"@ || exists|rest: Seq<char>|
            e@ == "plugin '"@ + m.name@ + rest,
        !shows_something(m.name@) ==> e@ == "plugin name must not be empty"@,
        shows_something(m.name@) && encode_utf8(m.name@).len() > 128 ==> e@
            == "plugin name too long (max 128)"@,
        shows_something(m.name@) && encode_utf8(m.name@).len() <= 128 ==> {
            &&& !one_word(m.name@) ==> e@
                == "plugin name must not contain whitespace or path separators"@
            &&& one_word(m.name@) ==> {
                &&& !shows_something(m.entry@) ==> e@ == "plugin '"@ + m.name@
                    + "' entry must not be empty"@
                &&& shows_something(m.entry@) && two_dots(m.entry@) ==> e@ == "plugin '"@ + m.name@
                    + "' entry must not contain '..' (path traversal)"@
                &&& shows_something(m.entry@) && !two_dots(m.entry@) ==> {
                    &&& m.limits.max_memory_mb == 0 ==> e@ == "plugin '"@ + m.name@
                        + "' max_memory_mb must be > 0"@
                    &&& m.limits.max_memory_mb > 0 && m.limits.max_exec_ms == 0 ==> e@ == "plugin '"@
                        + m.name@ + "' max_exec_ms must be > 0"@
                    &&& m.limits.max_memory_mb > 0 && m.limits.max_exec_ms > 0
                        && m.limits.max_objects == 0 ==> e@ == "plugin '"@ + m.name@
                        + "' max_objects must be > 0"@
                    &&& m.limits.max_memory_mb > 0 && m.limits.max_exec_ms > 0
                        && m.limits.max_objects > 0 ==> e@ == "plugin '"@ + m.name@
                        + "' declares an empty capability id"@
                }
            }
        },
{
    lemma_two_dots(m.entry@);
    assert(one_word(m.name@) <==> !exists|i: int|
        0 <= i < m.name@.len() && manifest::bad_name_char(#[trigger] m.name@[i]));
}

/// The entry of a plugin is the path that its source names, and the manifest's entry where the
/// source names none.
pub proof fn law_sources_name_the_entry(m: PluginManifest, r: &str)
    requires
        call_ensures(PluginManifest::resolved_entry, (&m,), r),
    ensures
        m.source matches PluginSource::Path(p) && p@.len() > 0 ==> r@ == (m.source->Path_0)@,
        !(m.source matches PluginSource::Path(p) && p@.len() > 0) ==> r@ == m.entry@,
{
}

/// A copy of a manifest says in everything what the manifest says.
pub proof fn law_copies_say_the_same(m: PluginManifest, r: PluginManifest)
    requires
        call_ensures(PluginManifest::clone, (&m,), r),
    ensures
        r.name@ == m.name@ && r.version@ == m.version@ && r.entry@ == m.entry@,
        r.runtime == m.runtime && r.trust == m.trust && r.hooks == m.hooks,
        r.limits == m.limits && r.source == m.source,
        r.capabilities@ == m.capabilities@,
{
}

/// A plugin that sets no limits has those of 64 MiB, of thirty seconds and of 64 handles.
pub proof fn law_limits_where_none_are_set(r: PluginLimits)
    requires
        call_ensures(PluginLimits::default, (), r),
    ensures
        r.max_memory_mb == 64,
        r.max_exec_ms == 30_000,
        r.max_objects == 64,
{
}

/// The manifest of a service of the agent carries its name and its version, asks for nothing, and
/// runs without a file.
pub proof fn law_services_have_manifests(name: &str, version: &str, r: PluginManifest)
    requires
        call_ensures(native_manifest, (name, version), r),
    ensures
        r.name@ == name@ && r.version@ == version@,
        r.runtime is Native && r.trust is FirstParty,
        r.entry@ == "native:"@ + name@,
        r.capabilities@.len() == 0 && !r.hooks,
        r.limits.max_memory_mb == 64 && r.limits.max_exec_ms == 30_000 && r.limits.max_objects == 64,
        r.source matches PluginSource::Path(p) && p@.len() == 0,
{
}

/// No service is on unless it is switched on.
pub proof fn law_services_are_off_at_first(c: ServiceConfig)
    requires
        call_ensures(ServiceConfig::default, (), c),
    ensures
        !c.registry && !c.config_center && !c.lock && !c.idgen && !c.leader_election,
        !c.event_notification && !c.cache && !c.mq && !c.workflow && !c.policy && !c.scheduler,
        !c.circuit_breaker && !c.rate_limiter && !c.feature_flags && !c.transit && !c.pki,
        !c.replication && c.idgen_mode@ == "snowflake"@ && c.idgen_node_id is None,
{
}

// ---- services of the agent ----

/// A service counts as started once its start succeeded, and is healthy only as long as it says
/// so; one that was stopped counts as stopped, whatever came of stopping it.
pub proof fn law_services_run_from_start_to_stop(
    adapter: &mut NativePluginAdapter,
    outcome: Result<(), String>,
    r: Result<(), String>,
    after: NativePluginAdapter,
    state: PluginStatus,
    says: bool,
    healthy: bool,
)
    requires
        call_ensures(NativePluginAdapter::on_start, (adapter, outcome), r),
        after == *final(adapter),
        call_ensures(NativePluginAdapter::status, (&after,), state),
        call_ensures(NativePluginAdapter::is_healthy, (&after, says), healthy),
    ensures
        r == outcome,
        outcome is Ok ==> state is Started && healthy == says,
        healthy ==> says && state is Started,
        after.about() == old(adapter).about(),
        after.interface() == old(adapter).interface(),
{
}

/// A service that was stopped counts as stopped, and is not healthy, whatever came of stopping it.
pub proof fn law_stopped_services_are_stopped(
    adapter: &mut NativePluginAdapter,
    outcome: Result<(), String>,
    r: Result<(), String>,
    after: NativePluginAdapter,
    state: PluginStatus,
    says: bool,
    healthy: bool,
)
    requires
        call_ensures(NativePluginAdapter::on_stop, (adapter, outcome), r),
        after == *final(adapter),
        call_ensures(NativePluginAdapter::status, (&after,), state),
        call_ensures(NativePluginAdapter::is_healthy, (&after, says), healthy),
    ensures
        r == outcome,
        state is Stopped,
        !healthy,
        after.about() == old(adapter).about(),
{
}

/// A service is registered under the name and the version of its manifest, as a builtin plugin.
pub proof fn law_services_are_registered_as_builtin(
    adapter: NativePluginAdapter,
    m: &PluginManifest,
    name: &str,
    record: PluginRecord,
    builtin: bool,
)
    requires
        call_ensures(NativePluginAdapter::manifest, (&adapter,), m),
        call_ensures(NativePluginAdapter::name, (&adapter,), name),
        call_ensures(NativePluginAdapter::record, (&adapter,), record),
        call_ensures(NativePluginAdapter::is_builtin, (&adapter,), builtin),
    ensures
        name@ == m.name@,
        record.name@ == m.name@ && record.version@ == m.version@,
        record.builtin && builtin && record.fingerprint is None,
{
}

// ---- engines ----

/// Scripts go to the script engine and modules to the module engine, each where it is there; a
/// service goes to none.
pub proof fn law_plugins_go_to_their_engine(
    engines: Engines,
    m: PluginManifest,
    prints: Option<PluginEngine>,
    loads: Result<PluginEngine, String>,
)
    requires
        call_ensures(fingerprint_engine, (engines, &m), prints),
        call_ensures(loading_engine, (engines, &m), loads),
    ensures
        m.runtime is Js && engines.js ==> prints == Some(PluginEngine::Js),
        m.runtime is Wasm && engines.wasm ==> prints == Some(PluginEngine::Wasm),
        m.runtime is Native || (m.runtime is Js && !engines.js) || (m.runtime is Wasm
            && !engines.wasm) ==> prints is None,
        loads matches Ok(engine) ==> prints == Some(engine),
        loads is Err <==> prints is None,
        loads matches Err(e) ==> exists|runtime: Seq<char>|
            (runtime == "js"@ || runtime == "wasm"@ || runtime == "native"@) && e@
                == "no engine enabled for runtime '"@ + runtime + "' (plugin '"@ + m.name@
                + "'): build with `plugin-js` and/or `plugin-wasm`"@,
{
}

/// An engine takes every sound manifest of its own runtime, and no other.
pub proof fn law_engines_take_their_runtime(
    engine: PluginEngine,
    m: PluginManifest,
    sound: Result<(), String>,
    r: Result<(), String>,
)
    requires
        call_ensures(PluginManifest::validate, (&m,), sound),
        call_ensures(check_loadable, (engine, &m), r),
    ensures
        r is Ok <==> sound is Ok && (engine is Js && m.runtime is Js || engine is Wasm
            && m.runtime is Wasm),
        sound matches Err(e) ==> r matches Err(x) && x@ == e@,
        sound is Ok && r is Err && engine is Js && m.runtime is Wasm ==> (r->Err_0)@ == "JsPluginLoader"@
            + " cannot load runtime '"@ + "wasm"@ + "' (plugin '"@ + m.name@ + "')"@,
        sound is Ok && r is Err && engine is Wasm && m.runtime is Js ==> (r->Err_0)@
            == "WasmPluginLoader"@ + " cannot load runtime '"@ + "js"@ + "' (plugin '"@ + m.name@ + "')"@,
        sound is Ok && engine is Js && m.runtime is Native ==> (r matches Err(e) && e@
            == "JsPluginLoader"@ + " cannot load runtime '"@ + "native"@ + "' (plugin '"@ + m.name@
            + "')"@),
{
}

/// A module is tried for an identity once, a script and a component up to five times, with a first
/// pause of a fifth of a second.
pub proof fn law_identities_are_tried_for(kind: EngineKind, r: EnsureRetryPolicy)
    requires
        call_ensures(identity_policy, (kind,), r),
    ensures
        kind is Wasm ==> r.attempts == 1,
        !(kind is Wasm) ==> r.attempts == 5,
        r.initial_backoff_ns == 200_000_000,
{
}

/// Scripts run as scripts; a binary that opens with the component layer runs as a component, any
/// other one as a module.
pub proof fn law_binaries_run_as_what_they_are(
    engine: PluginEngine,
    bytes: &[u8],
    r: (EngineKind, String),
    print: String,
)
    requires
        call_ensures(content_loaded, (engine, bytes), r),
        call_ensures(content_fingerprint_bytes, (bytes,), print),
    ensures
        r.0 is Js <==> engine is Js,
        r.0 is Component <==> engine is Wasm && bytes@.len() >= 8 && bytes@[0] == 0x00 && bytes@[1]
            == 0x61 && bytes@[2] == 0x73 && bytes@[3] == 0x6d && bytes@[4] == 0x0d && bytes@[5]
            == 0x00 && bytes@[6] == 0x01 && bytes@[7] == 0x00,
        r.1@ == print@,
{
    let layer = crate::plugin::component_engine::COMPONENT_LAYER@;
    if bytes@.len() >= 8 {
        let head = bytes@.take(8);
        assert(head[0] == bytes@[0] && head[1] == bytes@[1] && head[2] == bytes@[2] && head[3]
            == bytes@[3] && head[4] == bytes@[4] && head[5] == bytes@[5] && head[6] == bytes@[6]
            && head[7] == bytes@[7]);
        if bytes@[0] == 0x00 && bytes@[1] == 0x61 && bytes@[2] == 0x73 && bytes@[3] == 0x6d
            && bytes@[4] == 0x0d && bytes@[5] == 0x00 && bytes@[6] == 0x01 && bytes@[7] == 0x00 {
            assert(head =~= layer);
        }
    }
}

/// Contents share a fingerprint exactly where they share a digest, and the fingerprint spells the
/// digest byte by byte.
pub proof fn law_fingerprints_spell_digests(
    a: &[u8],
    b: &[u8],
    x: String,
    y: String,
    digest: &[u8],
    spelled: String,
)
    requires
        call_ensures(content_fingerprint_bytes, (a,), x),
        call_ensures(content_fingerprint_bytes, (b,), y),
        call_ensures(fingerprint_text, (digest,), spelled),
    ensures
        x@ == y@ <==> fingerprint::sha256_digest(a@) == fingerprint::sha256_digest(b@),
        digest@ == fingerprint::sha256_digest(a@) ==> spelled@ == x@,
        spelled@.len() == 7 + 2 * digest@.len(),
        forall|i: int|
            0 <= i < digest@.len() ==> spelled@[7 + 2 * i] == "0123456789abcdef"@[(#[trigger] digest@[i])
                as int / 16] && spelled@[8 + 2 * i] == "0123456789abcdef"@[digest@[i] as int % 16],
        spelled@.take(7) == "sha256:"@,
{
    fingerprint::law_fingerprints_tell_digests_apart(
        fingerprint::sha256_digest(a@),
        fingerprint::sha256_digest(b@),
    );
    reveal_strlit("sha256:");
    reveal_strlit("0123456789abcdef");
    let hex = fingerprint::hex_text(digest@);
    assert(spelled@.take(7) =~= "sha256:"@);
    assert forall|i: int| 0 <= i < digest@.len() implies spelled@[7 + 2 * i]
        == "0123456789abcdef"@[(#[trigger] digest@[i]) as int / 16] && spelled@[8 + 2 * i]
        == "0123456789abcdef"@[digest@[i] as int % 16] by {
        assert((2 * i) / 2 == i && (2 * i) % 2 == 0);
        assert((2 * i + 1) / 2 == i && (2 * i + 1) % 2 == 1);
        assert(spelled@[7 + 2 * i] == hex[2 * i]);
        assert(spelled@[8 + 2 * i] == hex[2 * i + 1]);
    }
}

/// What could not be read or compiled is named with the plugin, the file and the reason.
pub proof fn law_failed_files_are_named(
    engine: PluginEngine,
    kind: EngineKind,
    name: &str,
    path: &str,
    error: &str,
    unread: String,
    uncompiled: String,
)
    requires
        call_ensures(read_failure, (engine, name, path, error), unread),
        call_ensures(compile_failure, (kind, name, path, error), uncompiled),
    ensures
        engine is Js ==> unread@ == "failed to read plugin '"@ + name@ + "' "@ + "entry"@ + " "@ + path@
            + ": "@ + error@,
        engine is Wasm ==> unread@ == "failed to read plugin '"@ + name@ + "' "@ + "module"@ + " "@
            + path@ + ": "@ + error@,
        kind is Component ==> uncompiled@ == "plugin '"@ + name@ + "' "@ + "component"@ + " "@ + path@
            + " failed to compile: "@ + error@,
        !(kind is Component) ==> uncompiled@ == "plugin '"@ + name@ + "' "@ + "module"@ + " "@ + path@
            + " failed to compile: "@ + error@,
{
}

// ---- paths ----

/// Whether two parts of paths are the same.
pub open spec fn same_part(a: PathPart, b: PathPart) -> bool {
    match (a, b) {
        (PathPart::Root, PathPart::Root) => true,
        (PathPart::Parent, PathPart::Parent) => true,
        (PathPart::Current, PathPart::Current) => true,
        (PathPart::Name(x), PathPart::Name(y)) => x@ == y@,
        _ => false,
    }
}

/// Whether two paths are the same, part by part.
pub open spec fn same_path(a: Seq<PathPart>, b: Seq<PathPart>) -> bool {
    a.len() == b.len() && forall|i: int| 0 <= i < a.len() ==> same_part(#[trigger] a[i], b[i])
}

/// Whether a path leads into a directory: the directory's parts come first.
pub open spec fn leads_into(path: Seq<PathPart>, dir: Seq<PathPart>) -> bool {
    dir.len() <= path.len() && forall|i: int|
        0 <= i < dir.len() ==> same_part(path[i], #[trigger] dir[i])
}

/// Whether a path is one of names alone, after the root where there is one.
pub open spec fn names_alone(path: Seq<PathPart>) -> bool {
    forall|i: int|
        0 <= i < path.len() ==> (#[trigger] path[i] is Name || (path[i] is Root && i == 0))
}

proof fn lemma_same_path(a: Seq<PathPart>, b: Seq<PathPart>)
    ensures
        same_path(a, b) <==> paths::path_view(a) == paths::path_view(b),
{
    let x = paths::path_view(a);
    let y = paths::path_view(b);
    if same_path(a, b) {
        assert forall|i: int| 0 <= i < a.len() implies x[i] == y[i] by {
            assert(same_part(a[i], b[i]));
        }
        assert(x =~= y);
    }
    if x == y {
        assert(a.len() == x.len() && b.len() == y.len());
        assert forall|i: int| 0 <= i < a.len() implies same_part(#[trigger] a[i], b[i]) by {
            assert(x[i] == a[i]@ && y[i] == b[i]@);
        }
    }
}

proof fn lemma_leads_into(path: Seq<PathPart>, dir: Seq<PathPart>)
    ensures
        leads_into(path, dir) <==> paths::lies_in(paths::path_view(path), paths::path_view(dir)),
{
    let p = paths::path_view(path);
    let d = paths::path_view(dir);
    if leads_into(path, dir) {
        assert forall|i: int| 0 <= i < dir.len() implies p.take(d.len() as int)[i] == d[i] by {
            assert(same_part(path[i], dir[i]));
        }
        assert(p.take(d.len() as int) =~= d);
    }
    if paths::lies_in(p, d) {
        assert forall|i: int| 0 <= i < dir.len() implies same_part(path[i], #[trigger] dir[i]) by {
            assert(p.take(d.len() as int)[i] == d[i]);
            assert(p[i] == path[i]@ && d[i] == dir[i]@);
        }
    }
}

/// A path is read from its start: a name goes down, `.` stays, `..` goes back up but never above
/// the start, and the root starts over; nothing is read where there is nothing.
pub proof fn law_paths_are_read_part_by_part(
    a: &[PathPart],
    b: &[PathPart],
    part: PathPart,
    x: Vec<PathPart>,
    y: Vec<PathPart>,
)
    requires
        call_ensures(normalize_plugin_path, (a,), x),
        call_ensures(normalize_plugin_path, (b,), y),
        b@ == a@.push(part),
    ensures
        a@.len() == 0 ==> x@.len() == 0,
        part is Name ==> same_path(y@, x@.push(part)),
        part is Current ==> same_path(y@, x@),
        part is Root ==> same_path(y@, seq![PathPart::Root]),
        part is Parent && x@.len() > 0 && !(x@.last() is Root) ==> same_path(y@, x@.drop_last()),
        part is Parent && (x@.len() == 0 || x@.last() is Root) ==> same_path(y@, x@),
{
    let av = paths::path_view(a@);
    let xv = paths::path_view(x@);
    assert(paths::path_view(b@) =~= av.push(part@));
    assert(av.push(part@).drop_last() =~= av);
    assert(x@.len() == xv.len());
    if x@.len() > 0 {
        assert(xv.last() == x@.last()@);
    }
    assert(paths::path_view(x@.push(part)) =~= xv.push(part@));
    assert(paths::path_view(seq![PathPart::Root]) =~= seq![PathPart::Root@]);
    lemma_same_path(y@, x@.push(part));
    lemma_same_path(y@, x@);
    lemma_same_path(y@, seq![PathPart::Root]);
    if x@.len() > 0 {
        assert(paths::path_view(x@.drop_last()) =~= xv.drop_last());
        lemma_same_path(y@, x@.drop_last());
    }
}

/// An entry is taken exactly where its path, read from the plugin directory, leads into that
/// directory, and it is taken as that path.
pub proof fn law_entries_stay_in_the_plugin_directory(
    dir: &[PathPart],
    plugin: &str,
    entry: &str,
    parts: &[PathPart],
    full: &[PathPart],
    read: Vec<PathPart>,
    r: Result<Vec<PathPart>, String>,
)
    requires
        call_ensures(entry_path, (dir, plugin, entry, parts), r),
        full@ == if parts@.len() > 0 && parts@[0] is Root {
            parts@
        } else {
            dir@ + parts@
        },
        call_ensures(normalize_plugin_path, (full,), read),
    ensures
        r is Ok <==> leads_into(read@, dir@),
        r matches Ok(path) ==> same_path(path@, read@) && leads_into(path@, dir@) && names_alone(path@),
        r matches Err(e) ==> e@ == "plugin '"@ + plugin@ + "' entry '"@ + entry@
            + "' escapes the plugin dir"@,
{
    let dv = paths::path_view(dir@);
    let pv = paths::path_view(parts@);
    if parts@.len() > 0 {
        assert(pv[0] == parts@[0]@);
    }
    assert(paths::path_view(full@) =~= paths::joined(dv, pv));
    lemma_leads_into(read@, dir@);
    if let Ok(path) = r {
        lemma_same_path(path@, read@);
        lemma_leads_into(path@, dir@);
        paths::law_normalized_paths_are_plain(paths::joined(dv, pv));
        assert forall|i: int| 0 <= i < path@.len() implies (#[trigger] path@[i] is Name || (
        path@[i] is Root && i == 0)) by {
            assert(paths::path_view(path@)[i] == path@[i]@);
        }
    }
}

/// A plugin is loaded from the file that its entry names, where its engine takes it.
pub proof fn law_plugins_are_loaded_from_their_entry(
    engine: PluginEngine,
    m: PluginManifest,
    dir: &[PathPart],
    parts: &[PathPart],
    name: &str,
    entry: &str,
    taken: Result<(), String>,
    file: Result<Vec<PathPart>, String>,
    r: Result<Vec<PathPart>, String>,
)
    requires
        name@ == m.name@,
        call_ensures(PluginManifest::resolved_entry, (&m,), entry),
        call_ensures(check_loadable, (engine, &m), taken),
        call_ensures(entry_path, (dir, name, entry, parts), file),
        call_ensures(plan_load, (engine, &m, dir, parts), r),
    ensures
        r is Ok <==> taken is Ok && file is Ok,
        r matches Ok(path) ==> same_path(path@, file->Ok_0@),
        taken matches Err(e) ==> r matches Err(x) && x@ == e@,
        taken is Ok ==> (file matches Err(e) ==> r matches Err(x) && x@ == e@),
{
    if let Ok(path) = r {
        lemma_same_path(path@, file->Ok_0@);
    }
}

/// An import is taken exactly where its path leads into the plugin directory: one with a leading
/// `./` or `../` is read from the directory of the importing module, one with a leading `/` by
/// itself, any other from the plugin directory.
pub proof fn law_imports_stay_in_the_plugin_directory(
    root: &[PathPart],
    base: &[PathPart],
    name: &str,
    parts: &[PathPart],
    start: Seq<PathPart>,
    full: &[PathPart],
    read: Vec<PathPart>,
    r: Option<Vec<PathPart>>,
)
    requires
        call_ensures(resolve_import, (root, base, name, parts), r),
        ({
            let n = name@;
            let near = n.len() >= 2 && n[0] == '.' && n[1] == '/' || n.len() >= 3 && n[0] == '.' && n[1]
                == '.' && n[2] == '/';
            let top = !near && n.len() >= 1 && n[0] == '/';
            start == if near && base@.len() > 0 && !(base@.last() is Root) {
                base@.drop_last()
            } else if top {
                Seq::empty()
            } else {
                root@
            }
        }),
        full@ == if parts@.len() > 0 && parts@[0] is Root {
            parts@
        } else {
            start + parts@
        },
        call_ensures(normalize_plugin_path, (full,), read),
    ensures
        r is Some <==> leads_into(read@, root@),
        r matches Some(path) ==> same_path(path@, read@) && leads_into(path@, root@) && names_alone(
            path@,
        ),
{
    let n = name@;
    reveal_strlit("./");
    reveal_strlit("../");
    reveal_strlit("/");
    if n.len() >= 2 {
        let s = n.subrange(0, 2);
        assert(s[0] == n[0] && s[1] == n[1]);
        if n[0] == '.' && n[1] == '/' {
            assert(s =~= "./"@);
        }
        assert("./"@[0] == '.' && "./"@[1] == '/');
    }
    if n.len() >= 3 {
        let s = n.subrange(0, 3);
        assert(s[0] == n[0] && s[1] == n[1] && s[2] == n[2]);
        if n[0] == '.' && n[1] == '.' && n[2] == '/' {
            assert(s =~= "../"@);
        }
        assert("../"@[0] == '.' && "../"@[1] == '.' && "../"@[2] == '/');
    }
    if n.len() >= 1 {
        let s = n.subrange(0, 1);
        assert(s[0] == n[0]);
        if n[0] == '/' {
            assert(s =~= "/"@);
        }
        assert("/"@[0] == '/');
    }
    let rv = paths::path_view(root@);
    let bv = paths::path_view(base@);
    let pv = paths::path_view(parts@);
    if parts@.len() > 0 {
        assert(pv[0] == parts@[0]@);
    }
    if base@.len() > 0 {
        assert(bv.last() == base@.last()@);
        assert(paths::path_view(base@.drop_last()) =~= bv.drop_last());
    }
    assert(paths::path_view(full@) =~= paths::import_target(rv, bv, n, pv));
    lemma_leads_into(read@, root@);
    if let Some(path) = r {
        lemma_same_path(path@, read@);
        lemma_leads_into(path@, root@);
        paths::law_normalized_paths_are_plain(paths::import_target(rv, bv, n, pv));
        assert forall|i: int| 0 <= i < path@.len() implies (#[trigger] path@[i] is Name || (
        path@[i] is Root && i == 0)) by {
            assert(paths::path_view(path@)[i] == path@[i]@);
        }
    }
}

// ---- calls ----

/// A call reaches every plugin that is started and no other; the caller learns whether the name was
/// missing, the plugin unknown or not running.
pub proof fn law_calls_reach_started_plugins(
    plugin: &str,
    state: Option<&PluginStatus>,
    r: Result<(), CallStatus>,
)
    requires
        call_ensures(check_call, (plugin, state), r),
    ensures
        r is Ok <==> shows_something(plugin@) && (state matches Some(s) && *s is Started),
        !shows_something(plugin@) ==> (r matches Err(e) && e.code is InvalidArgument && e.message@
            == "plugin_id must not be empty"@),
        shows_something(plugin@) && state is None ==> (r matches Err(e) && e.code is NotFound
            && e.message@ == "plugin '"@ + plugin@ + "' not loaded"@),
        shows_something(plugin@) && (state matches Some(s) && !(*s is Started)) ==> (r matches Err(e)
            && e.code is Unavailable && exists|now: Seq<char>|
            (now == "loaded"@ || now == "stopped"@ || now == "failed"@) && e.message@ == "plugin '"@
                + plugin@ + "' is not running (status="@ + now + ")"@),
{
}

/// A call that reached its plugin is answered with what the plugin answered, or with its failure.
pub proof fn law_calls_are_answered_by_the_plugin(
    plugin: &str,
    method: &str,
    result: Result<Vec<u8>, String>,
    r: Result<Vec<u8>, CallStatus>,
)
    requires
        call_ensures(call_outcome, (plugin, method, result), r),
    ensures
        result matches Ok(b) ==> r matches Ok(x) && x@ == b@,
        result matches Err(e) ==> r matches Err(s) && s.code is Internal && s.message@ == "plugin '"@
            + plugin@ + "' invoke '"@ + method@ + "' failed: "@ + e@,
{
}

/// Plugins are listed with what their manifest, their state and their health say.
pub proof fn law_plugins_are_listed_as_they_are(
    m: PluginManifest,
    state: PluginStatus,
    healthy: bool,
    builtin: bool,
    r: PluginInfo,
)
    requires
        call_ensures(plugin_info, (&m, &state, healthy, builtin), r),
    ensures
        r.name@ == m.name@ && r.version@ == m.version@,
        r.runtime@ == (match m.runtime {
            PluginRuntime::Js => "js"@,
            PluginRuntime::Wasm => "wasm"@,
            PluginRuntime::Native => "native"@,
        }),
        r.trust@ == (match m.trust {
            PluginTrust::FirstParty => "first_party"@,
            PluginTrust::ThirdParty => "third_party"@,
        }),
        r.status@ == (match state {
            PluginStatus::Loaded => "loaded"@,
            PluginStatus::Started => "started"@,
            PluginStatus::Stopped => "stopped"@,
            PluginStatus::Failed(_) => "failed"@,
        }),
        r.healthy == healthy && r.builtin == builtin,
{
}

/// A service is known by the name that it says itself, and is as healthy as it says.
pub proof fn law_services_speak_for_themselves<S: BaseService + ?Sized>(
    service: &S,
    name: Seq<char>,
    healthy: bool,
    own: Seq<char>,
    own_health: bool,
)
    requires
        native::may_say_name(service, name),
        native::may_report(service, healthy),
        forall|said: &'static str| #[trigger]
            call_ensures(S::name, (service,), said) ==> said@ == own,
        forall|h: bool| #[trigger] call_ensures(S::health_check, (service,), h) ==> h == own_health,
    ensures
        name == own,
        healthy == own_health,
{
}

/// A service offers the interface that it is given, and has the manifest that it is given.
pub proof fn law_services_offer_what_they_are_given(
    adapter: NativePluginAdapter,
    interface: AgentGrpcService,
    with: NativePluginAdapter,
    offered: Option<AgentGrpcService>,
    m: PluginManifest,
    renamed: NativePluginAdapter,
    about: &PluginManifest,
    kept: (&PluginManifest, Option<AgentGrpcService>),
    was: (&PluginManifest, Option<AgentGrpcService>),
)
    requires
        call_ensures(NativePluginAdapter::with_grpc, (adapter, interface), with),
        call_ensures(NativePluginAdapter::grpc_service, (&with,), offered),
        call_ensures(NativePluginAdapter::manifest, (&with,), kept.0),
        call_ensures(NativePluginAdapter::with_manifest, (adapter, m), renamed),
        call_ensures(NativePluginAdapter::manifest, (&renamed,), about),
        call_ensures(NativePluginAdapter::grpc_service, (&renamed,), kept.1),
        call_ensures(NativePluginAdapter::manifest, (&adapter,), was.0),
        call_ensures(NativePluginAdapter::grpc_service, (&adapter,), was.1),
    ensures
        offered == Some(interface),
        *about == m,
        *kept.0 == *was.0 && kept.1 == was.1,
{
}

/// Without a configuration plugins are off, hooks are on, and plugins lie in their usual directory.
pub proof fn law_plugins_are_off_at_first(a: PluginEngineConfig, b: PluginEngineConfig)
    requires
        call_ensures(PluginEngineConfig::default, (), a),
        call_ensures(native::default_native_engine_config, (), b),
    ensures
        !a.enabled && a.hooks_enabled && a.entries@.len() == 0,
        a.dir@ == "/var/lib/coord-agent/plugins"@,
        a.default_limits.max_memory_mb == 64 && a.default_limits.max_exec_ms == 30_000
            && a.default_limits.max_objects == 64,
        !b.enabled && b.hooks_enabled && b.entries@.len() == 0 && b.dir@ == a.dir@,
        b.default_limits == a.default_limits,
{
}

} // verus!
