//! Services of the agent in the shape of plugins.
use crate::plugin::grpc::AgentGrpcService;
use crate::plugin::manifest::{
    PluginEngineConfig, PluginLimits, PluginManifest, PluginRuntime, PluginSource, PluginTrust,
};
use crate::plugin::registry::{PluginRecord, PluginStatus};
use crate::service::BaseService;
use std::sync::Arc;
use vstd::prelude::*;

verus! {

/// Version of the agent.
pub const AGENT_VERSION: &'static str = "0.1.0";

/// Whether a manifest is that of a native service under its name and with a version.
pub open spec fn is_native_manifest(m: PluginManifest, version: Seq<char>) -> bool {
    &&& m.version@ == version
    &&& m.runtime is Native
    &&& m.trust is FirstParty
    &&& m.entry@ == "native:"@ + m.name@
    &&& m.capabilities@.len() == 0
    &&& m.limits == crate::plugin::manifest::default_limits()
    &&& !m.hooks
    &&& m.source matches PluginSource::Path(p) && p@.len() == 0
}

/// The manifest of a native service.
pub fn native_manifest(name: &str, version: &str) -> (r: PluginManifest)
    ensures
        r.name@ == name@,
        is_native_manifest(r, version@),
{
    let mut entry = "native:".to_owned();
    entry.append(name);
    PluginManifest {
        name: name.to_owned(),
        version: version.to_owned(),
        runtime: PluginRuntime::Native,
        trust: PluginTrust::FirstParty,
        entry,
        capabilities: Vec::new(),
        limits: PluginLimits::default(),
        hooks: false,
        source: PluginSource::default(),
    }
}

/// Whether a service may say that it has a name.
pub open spec fn may_say_name<S: BaseService + ?Sized>(service: &S, name: Seq<char>) -> bool {
    exists|said: &'static str| said@ == name && #[trigger] call_ensures(S::name, (service,), said)
}

/// Whether a service may say so of its health.
pub open spec fn may_report<S: BaseService + ?Sized>(service: &S, healthy: bool) -> bool {
    call_ensures(S::health_check, (service,), healthy)
}

fn say_name<S: BaseService + ?Sized>(service: &S) -> (r: &'static str)
    ensures
        may_say_name(service, r@),
{
    let said = service.name();
    assert(call_ensures(S::name, (service,), said));
    said
}

fn ask_health<S: BaseService + ?Sized>(service: &S) -> (r: bool)
    ensures
        may_report(service, r),
{
    service.health_check()
}

/// Whether a service may say that it has a name.
pub open spec fn goes_by(service: &Arc<dyn BaseService>, name: Seq<char>) -> bool {
    may_say_name(&**service, name)
}

/// Whether a service may say so of its health.
pub open spec fn reports(service: &Arc<dyn BaseService>, healthy: bool) -> bool {
    may_report(&**service, healthy)
}

/// A service together with what is known of it as a plugin.
struct Adapted<S> {
    manifest: PluginManifest,
    service: S,
    grpc: Option<AgentGrpcService>,
    started: bool,
}

impl<S> Adapted<S> {
    fn new(service: S, manifest: PluginManifest) -> (r: Self)
        ensures
            r.manifest == manifest,
            r.service == service,
            r.grpc is None,
            !r.started,
    {
        Adapted { manifest, service, grpc: None, started: false }
    }
}

/// A native service as a plugin.
pub struct NativePluginAdapter {
    inner: Adapted<Arc<dyn BaseService>>,
}

impl NativePluginAdapter {
    /// The manifest.
    pub closed spec fn about(&self) -> PluginManifest {
        self.inner.manifest
    }

    /// The interface that it offers.
    pub closed spec fn interface(&self) -> Option<AgentGrpcService> {
        self.inner.grpc
    }

    /// Whether the service was started.
    pub closed spec fn is_on(&self) -> bool {
        self.inner.started
    }

    /// A service with the version of the agent.
    pub fn new(service: Arc<dyn BaseService>) -> (r: Self)
        ensures
            goes_by(&service, r.about().name@),
            is_native_manifest(r.about(), AGENT_VERSION@),
            r.interface() is None,
            !r.is_on(),
            r.holds(&service),
    {
        let name = say_name(&*service);
        let manifest = native_manifest(name, AGENT_VERSION);
        let inner = Adapted::new(service, manifest);
        NativePluginAdapter { inner }
    }

    /// A service with a version.
    pub fn with_version(service: Arc<dyn BaseService>, version: &str) -> (r: Self)
        ensures
            goes_by(&service, r.about().name@),
            is_native_manifest(r.about(), version@),
            r.interface() is None,
            !r.is_on(),
            r.holds(&service),
    {
        let name = say_name(&*service);
        let manifest = native_manifest(name, version);
        let inner = Adapted::new(service, manifest);
        NativePluginAdapter { inner }
    }

    /// Offers a remote interface.
    pub fn with_grpc(self, grpc: AgentGrpcService) -> (r: Self)
        ensures
            r.about() == self.about(),
            r.interface() == Some(grpc),
            r.is_on() == self.is_on(),
            forall|s: &Arc<dyn BaseService>| r.holds(s) == #[trigger] self.holds(s),
    {
        let mut inner = self.inner;
        inner.grpc = Some(grpc);
        NativePluginAdapter { inner }
    }

    /// Replaces the manifest.
    pub fn with_manifest(self, manifest: PluginManifest) -> (r: Self)
        ensures
            r.about() == manifest,
            r.interface() == self.interface(),
            r.is_on() == self.is_on(),
            forall|s: &Arc<dyn BaseService>| r.holds(s) == #[trigger] self.holds(s),
    {
        let mut inner = self.inner;
        inner.manifest = manifest;
        NativePluginAdapter { inner }
    }

    /// The service.
    pub fn service(&self) -> (r: &Arc<dyn BaseService>)
        ensures
            self.holds(r),
    {
        &self.inner.service
    }

    /// Whether that is the service.
    pub closed spec fn holds(&self, service: &Arc<dyn BaseService>) -> bool {
        self.inner.service == *service
    }

    /// Whether the service may say so of its health.
    pub closed spec fn service_reports(&self, healthy: bool) -> bool {
        reports(&self.inner.service, healthy)
    }

    /// Name of the plugin.
    pub fn name(&self) -> (r: &str)
        ensures
            r@ == self.about().name@,
    {
        self.inner.manifest.name.as_str()
    }

    /// The manifest.
    pub fn manifest(&self) -> (r: &PluginManifest)
        ensures
            *r == self.about(),
    {
        &self.inner.manifest
    }

    /// Takes in what came of starting the service: it counts as started only on success.
    pub fn on_start(&mut self, outcome: Result<(), String>) -> (r: Result<(), String>)
        ensures
            r == outcome,
            final(self).is_on() == (old(self).is_on() || outcome is Ok),
            final(self).about() == old(self).about(),
            final(self).interface() == old(self).interface(),
            forall|s: &Arc<dyn BaseService>| final(self).holds(s) == #[trigger] old(self).holds(s),
    {
        if outcome.is_ok() {
            self.inner.started = true;
        }
        outcome
    }

    /// Takes in what came of stopping the service: it no longer counts as started, whatever
    /// came of it.
    pub fn on_stop(&mut self, outcome: Result<(), String>) -> (r: Result<(), String>)
        ensures
            r == outcome,
            !final(self).is_on(),
            final(self).about() == old(self).about(),
            final(self).interface() == old(self).interface(),
            forall|s: &Arc<dyn BaseService>| final(self).holds(s) == #[trigger] old(self).holds(s),
    {
        self.inner.started = false;
        outcome
    }

    /// Whether the service is started and, by its own account, healthy.
    pub fn is_healthy(&self, service_healthy: bool) -> (r: bool)
        ensures
            r == (self.is_on() && service_healthy),
    {
        self.inner.started && service_healthy
    }

    /// Whether the plugin is healthy; a service that was not started never is.
    pub fn health_check(&self) -> (r: bool)
        ensures
            self.is_on() ==> self.service_reports(r),
            !self.is_on() ==> !r,
    {
        self.inner.started && self.is_healthy(ask_health(&*self.inner.service))
    }

    /// State of the plugin.
    pub fn status(&self) -> (r: PluginStatus)
        ensures
            r == if self.is_on() {
                PluginStatus::Started
            } else {
                PluginStatus::Stopped
            },
    {
        if self.inner.started {
            PluginStatus::Started
        } else {
            PluginStatus::Stopped
        }
    }

    /// The remote interface that it offers.
    pub fn grpc_service(&self) -> (r: Option<AgentGrpcService>)
        ensures
            r == self.interface(),
    {
        self.inner.grpc
    }

    /// Native services are always builtin.
    pub fn is_builtin(&self) -> (r: bool)
        ensures
            r,
    {
        true
    }

    /// What the registry knows of the service.
    pub fn record(&self) -> (r: PluginRecord)
        ensures
            r.name == self.about().name,
            r.version == self.about().version,
            r.builtin,
            r.fingerprint is None,
    {
        PluginRecord {
            name: self.inner.manifest.name.clone(),
            version: self.inner.manifest.version.clone(),
            builtin: true,
            fingerprint: None,
        }
    }
}

/// Configuration of the engine where only native services run.
pub fn default_native_engine_config() -> (r: PluginEngineConfig)
    ensures
        !r.enabled,
        r.dir@ == "/var/lib/coord-agent/plugins"@,
        r.hooks_enabled,
        r.default_limits == crate::plugin::manifest::default_limits(),
        r.env@ == Map::<Seq<char>, String>::empty(),
        r.entries@.len() == 0,
{
    PluginEngineConfig::default()
}

} // verus!
