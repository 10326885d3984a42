//! Plugin manifests: what a plugin is, what it asks for and what limits it.
use crate::name_map::NameMap;
use crate::text::{chars_of, contains_text, is_blank, white};
use crate::text;
use vstd::prelude::*;

verus! {

use vstd::utf8::*;

/// Runtime that executes a plugin.
#[derive(Debug, Clone, Copy, PartialEq, Eq, Structural)]
pub enum PluginRuntime {
    /// Embedded script engine.
    Js,
    /// WebAssembly sandbox.
    Wasm,
    /// A service of the agent itself.
    Native,
}

/// Name of a runtime.
pub open spec fn runtime_text(runtime: PluginRuntime) -> Seq<char> {
    match runtime {
        PluginRuntime::Js => "js"@,
        PluginRuntime::Wasm => "wasm"@,
        PluginRuntime::Native => "native"@,
    }
}

impl PluginRuntime {
    /// Name of the runtime.
    pub fn as_str(&self) -> (r: &'static str)
        ensures
            r@ == runtime_text(*self),
    {
        match self {
            PluginRuntime::Js => "js",
            PluginRuntime::Wasm => "wasm",
            PluginRuntime::Native => "native",
        }
    }
}

/// How far a plugin is trusted.
#[derive(Debug, Clone, Copy, PartialEq, Eq, Structural)]
pub enum PluginTrust {
    FirstParty,
    ThirdParty,
}

/// Name of a trust level.
pub open spec fn trust_text(trust: PluginTrust) -> Seq<char> {
    match trust {
        PluginTrust::FirstParty => "first_party"@,
        PluginTrust::ThirdParty => "third_party"@,
    }
}

impl PluginTrust {
    /// Name of the trust level.
    pub fn as_str(&self) -> (r: &'static str)
        ensures
            r@ == trust_text(*self),
    {
        match self {
            PluginTrust::FirstParty => "first_party",
            PluginTrust::ThirdParty => "third_party",
        }
    }
}

/// Where a plugin comes from.
#[derive(Debug, PartialEq, Eq)]
pub enum PluginSource {
    /// A path below the plugin directory.
    Path(String),
    /// A coordination key.
    Kv(String),
    /// An object storage bucket.
    StorageBucket(String),
}

impl Clone for PluginSource {
    fn clone(&self) -> (r: Self)
        ensures
            r == *self,
    {
        match self {
            PluginSource::Path(p) => PluginSource::Path(p.clone()),
            PluginSource::Kv(k) => PluginSource::Kv(k.clone()),
            PluginSource::StorageBucket(b) => PluginSource::StorageBucket(b.clone()),
        }
    }
}

impl Default for PluginSource {
    /// An empty path: the entry of the manifest counts.
    fn default() -> (r: Self)
        ensures
            r matches PluginSource::Path(p) && p@ == Seq::<char>::empty(),
    {
        PluginSource::Path(String::new())
    }
}

/// A capability that a plugin asks for.
#[derive(Debug, PartialEq, Eq)]
pub struct PluginCapability {
    /// Capability id, such as `data:kv:read`.
    pub id: String,
    /// Scope of the capability; empty for no limit.
    pub scope: String,
}

impl Clone for PluginCapability {
    fn clone(&self) -> (r: Self)
        ensures
            r == *self,
    {
        PluginCapability { id: self.id.clone(), scope: self.scope.clone() }
    }
}

/// Memory limit in MiB where a manifest sets none.
pub fn default_max_memory_mb() -> (r: u32)
    ensures
        r == 64,
{
    64
}

/// Execution time limit in milliseconds where a manifest sets none.
pub fn default_max_exec_ms() -> (r: u64)
    ensures
        r == 30_000,
{
    30_000
}

/// Limit of concurrent handles where a manifest sets none.
pub fn default_max_objects() -> (r: u32)
    ensures
        r == 64,
{
    64
}

/// Resource limits of one plugin.
#[derive(Debug, PartialEq, Eq, Structural)]
pub struct PluginLimits {
    /// Memory limit in MiB.
    pub max_memory_mb: u32,
    /// Execution time limit of one call, in milliseconds.
    pub max_exec_ms: u64,
    /// Limit of concurrently held handles.
    pub max_objects: u32,
}

impl Clone for PluginLimits {
    fn clone(&self) -> (r: Self)
        ensures
            r == *self,
    {
        PluginLimits {
            max_memory_mb: self.max_memory_mb,
            max_exec_ms: self.max_exec_ms,
            max_objects: self.max_objects,
        }
    }
}

/// The default limits.
pub open spec fn default_limits() -> PluginLimits {
    PluginLimits { max_memory_mb: 64, max_exec_ms: 30_000, max_objects: 64 }
}

impl Default for PluginLimits {
    fn default() -> (r: Self)
        ensures
            r == default_limits(),
    {
        PluginLimits {
            max_memory_mb: default_max_memory_mb(),
            max_exec_ms: default_max_exec_ms(),
            max_objects: default_max_objects(),
        }
    }
}

/// Description of a plugin.
#[derive(Debug, PartialEq, Eq)]
pub struct PluginManifest {
    /// Unique name.
    pub name: String,
    pub version: String,
    pub runtime: PluginRuntime,
    pub trust: PluginTrust,
    /// Script or module, relative to the plugin directory.
    pub entry: String,
    pub capabilities: Vec<PluginCapability>,
    pub limits: PluginLimits,
    /// Whether interception points are enabled.
    pub hooks: bool,
    pub source: PluginSource,
}

/// Two manifests that say the same.
pub open spec fn same_manifest(a: PluginManifest, b: PluginManifest) -> bool {
    &&& a.name == b.name
    &&& a.version == b.version
    &&& a.runtime == b.runtime
    &&& a.trust == b.trust
    &&& a.entry == b.entry
    &&& a.capabilities@ == b.capabilities@
    &&& a.limits == b.limits
    &&& a.hooks == b.hooks
    &&& a.source == b.source
}

/// A copy of declared capabilities.
pub fn copy_capabilities(v: &[PluginCapability]) -> (r: Vec<PluginCapability>)
    ensures
        r@ == v@,
{
    let mut out: Vec<PluginCapability> = Vec::new();
    let mut i: usize = 0;
    while i < v.len()
        invariant
            i <= v@.len(),
            out@ == v@.take(i as int),
        decreases v@.len() - i,
    {
        out.push(v[i].clone());
        assert(v@.take(i + 1) =~= v@.take(i as int).push(v@[i as int]));
        i += 1;
    }
    assert(out@ =~= v@);
    out
}

impl Clone for PluginManifest {
    fn clone(&self) -> (r: Self)
        ensures
            same_manifest(r, *self),
    {
        PluginManifest {
            name: self.name.clone(),
            version: self.version.clone(),
            runtime: self.runtime,
            trust: self.trust,
            entry: self.entry.clone(),
            capabilities: copy_capabilities(self.capabilities.as_slice()),
            limits: self.limits.clone(),
            hooks: self.hooks,
            source: self.source.clone(),
        }
    }
}

/// A character that no plugin name may hold.
pub open spec fn bad_name_char(c: char) -> bool {
    text::is_white(c) || c == '/' || c == '\\'
}

/// Whether a capability without an id is declared.
pub open spec fn empty_capability_declared(caps: Seq<PluginCapability>) -> bool {
    exists|i: int| 0 <= i < caps.len() && text::blank(#[trigger] caps[i].id@)
}

/// Longest plugin name, in bytes.
pub const MAX_NAME_BYTES: usize = 128;

/// The first defect of a manifest, or nothing where it is well formed.
pub open spec fn manifest_defect(m: PluginManifest) -> Option<Seq<char>> {
    if text::blank(m.name@) {
        Some("plugin name must not be empty"@)
    } else if encode_utf8(m.name@).len() > MAX_NAME_BYTES {
        Some("plugin name too long (max 128)"@)
    } else if exists|i: int| 0 <= i < m.name@.len() && bad_name_char(#[trigger] m.name@[i]) {
        Some("plugin name must not contain whitespace or path separators"@)
    } else if text::blank(m.entry@) {
        Some("plugin '"@ + m.name@ + "' entry must not be empty"@)
    } else if text::has_part(m.entry@, ".."@) {
        Some("plugin '"@ + m.name@ + "' entry must not contain '..' (path traversal)"@)
    } else if m.limits.max_memory_mb == 0 {
        Some("plugin '"@ + m.name@ + "' max_memory_mb must be > 0"@)
    } else if m.limits.max_exec_ms == 0 {
        Some("plugin '"@ + m.name@ + "' max_exec_ms must be > 0"@)
    } else if m.limits.max_objects == 0 {
        Some("plugin '"@ + m.name@ + "' max_objects must be > 0"@)
    } else if empty_capability_declared(m.capabilities@) {
        Some("plugin '"@ + m.name@ + "' declares an empty capability id"@)
    } else {
        None
    }
}

/// Whether a manifest may be loaded.
pub open spec fn well_formed_manifest(m: PluginManifest) -> bool {
    manifest_defect(m) is None
}

/// The entry that counts: an explicit source path before the entry.
pub open spec fn resolved_entry_of(m: PluginManifest) -> Seq<char> {
    match m.source {
        PluginSource::Path(p) => if p@.len() > 0 {
            p@
        } else {
            m.entry@
        },
        _ => m.entry@,
    }
}

/// Text about a plugin: its quoted name between two parts.
pub(crate) fn plugin_text(name: &str, rest: &str) -> (r: String)
    ensures
        r@ == "plugin '"@ + name@ + rest@,
{
    let mut s = "plugin '".to_owned();
    s.append(name);
    s.append(rest);
    s
}

/// Whether a capability without an id is declared.
fn declares_empty_capability(caps: &[PluginCapability]) -> (r: bool)
    ensures
        r == empty_capability_declared(caps@),
{
    let mut i: usize = 0;
    while i < caps.len()
        invariant
            i <= caps@.len(),
            forall|k: int| 0 <= k < i ==> !text::blank(#[trigger] caps@[k].id@),
        decreases caps@.len() - i,
    {
        if is_blank(caps[i].id.as_str()) {
            assert(text::blank(caps@[i as int].id@));
            return true;
        }
        i += 1;
    }
    false
}

impl PluginManifest {
    /// Checks the manifest; the error names the first defect.
    pub fn validate(&self) -> (r: Result<(), String>)
        ensures
            match r {
                Ok(_) => manifest_defect(*self) is None,
                Err(e) => manifest_defect(*self) == Some(e@),
            },
    {
        if is_blank(self.name.as_str()) {
            return Err("plugin name must not be empty".to_owned());
        }
        if self.name.as_str().as_bytes().len() > MAX_NAME_BYTES {
            return Err("plugin name too long (max 128)".to_owned());
        }
        let chars = chars_of(self.name.as_str());
        let mut i: usize = 0;
        while i < chars.len()
            invariant
                i <= chars@.len(),
                chars@ == self.name@,
                !text::blank(self.name@),
                encode_utf8(self.name@).len() <= MAX_NAME_BYTES,
                forall|k: int| 0 <= k < i ==> !bad_name_char(#[trigger] self.name@[k]),
            decreases chars@.len() - i,
        {
            if white(chars[i]) || chars[i] == '/' || chars[i] == '\\' {
                assert(bad_name_char(self.name@[i as int]));
                return Err("plugin name must not contain whitespace or path separators".to_owned());
            }
            i += 1;
        }
        if is_blank(self.entry.as_str()) {
            return Err(plugin_text(self.name.as_str(), "' entry must not be empty"));
        }
        if contains_text(self.entry.as_str(), "..") {
            return Err(
                plugin_text(self.name.as_str(), "' entry must not contain '..' (path traversal)"),
            );
        }
        if self.limits.max_memory_mb == 0 {
            return Err(plugin_text(self.name.as_str(), "' max_memory_mb must be > 0"));
        }
        if self.limits.max_exec_ms == 0 {
            return Err(plugin_text(self.name.as_str(), "' max_exec_ms must be > 0"));
        }
        if self.limits.max_objects == 0 {
            return Err(plugin_text(self.name.as_str(), "' max_objects must be > 0"));
        }
        if declares_empty_capability(self.capabilities.as_slice()) {
            return Err(plugin_text(self.name.as_str(), "' declares an empty capability id"));
        }
        Ok(())
    }

    /// The entry that counts: an explicit source path before the entry.
    pub fn resolved_entry(&self) -> (r: &str)
        ensures
            r@ == resolved_entry_of(*self),
    {
        match &self.source {
            PluginSource::Path(p) => {
                if p.as_str().is_empty() {
                    self.entry.as_str()
                } else {
                    p.as_str()
                }
            },
            _ => self.entry.as_str(),
        }
    }
}

/// A manifest that may be loaded has a name free of separators and an entry that never climbs
/// out of the plugin directory, and none of its limits is zero.
pub proof fn law_well_formed_manifest(m: PluginManifest)
    requires
        well_formed_manifest(m),
    ensures
        m.name@.len() > 0,
        forall|i: int| 0 <= i < m.name@.len() ==> #[trigger] m.name@[i] != '/' && m.name@[i] != '\\',
        !text::has_part(m.entry@, ".."@),
        m.limits.max_memory_mb > 0,
        m.limits.max_exec_ms > 0,
        m.limits.max_objects > 0,
{
    if m.name@.len() == 0 {
        assert(text::blank(m.name@));
    }
    assert forall|i: int| 0 <= i < m.name@.len() implies #[trigger] m.name@[i] != '/' && m.name@[i]
        != '\\' by {
        assert(!bad_name_char(m.name@[i]));
    }
}

/// Directory of plugins where the configuration names none.
pub fn default_plugins_dir() -> (r: String)
    ensures
        r@ == "/var/lib/coord-agent/plugins"@,
{
    "/var/lib/coord-agent/plugins".to_owned()
}

/// Switches that are on unless configured otherwise.
pub fn default_true() -> (r: bool)
    ensures
        r,
{
    true
}

/// Configuration of the plugin engine.
#[derive(Debug)]
pub struct PluginEngineConfig {
    /// Main switch.
    pub enabled: bool,
    /// Directory below which entries are resolved.
    pub dir: String,
    /// Switch of all interception points.
    pub hooks_enabled: bool,
    pub default_limits: PluginLimits,
    /// Read-only settings that plugins can look up.
    pub env: NameMap<String>,
    /// Configured plugins.
    pub entries: Vec<PluginManifest>,
}

impl Default for PluginEngineConfig {
    fn default() -> (r: Self)
        ensures
            !r.enabled,
            r.dir@ == "/var/lib/coord-agent/plugins"@,
            r.hooks_enabled,
            r.default_limits == default_limits(),
            r.env@ == Map::<Seq<char>, String>::empty(),
            r.entries@ == Seq::<PluginManifest>::empty(),
    {
        PluginEngineConfig {
            enabled: false,
            dir: default_plugins_dir(),
            hooks_enabled: default_true(),
            default_limits: PluginLimits::default(),
            env: NameMap::new(),
            entries: Vec::new(),
        }
    }
}

} // verus!
