//! Services of the agent and which of them are switched on.
use vstd::prelude::*;

verus! {

/// State of a service.
#[derive(Debug, Clone, Copy, PartialEq, Eq, Structural)]
pub enum ServiceStatus {
    Stopped,
    Starting,
    Running,
    Stopping,
    Failed,
}

/// A service of the agent. Starting and stopping it is up to the surroundings.
pub trait BaseService: Send + Sync {
    /// Unique name of the service.
    fn name(&self) -> (r: &'static str);

    /// Whether the service works as it should.
    fn health_check(&self) -> (r: bool);
}

/// How ids are generated where the configuration does not say.
pub fn default_idgen_mode() -> (r: String)
    ensures
        r@ == "snowflake"@,
{
    "snowflake".to_owned()
}

/// Which services are switched on.
#[derive(Debug, Clone)]
pub struct ServiceConfig {
    pub registry: bool,
    pub config_center: bool,
    pub lock: bool,
    pub idgen: bool,
    /// `snowflake` or `segment`.
    pub idgen_mode: String,
    /// Explicit node id of the generator.
    pub idgen_node_id: Option<u64>,
    pub leader_election: bool,
    pub event_notification: bool,
    pub cache: bool,
    pub mq: bool,
    pub workflow: bool,
    pub policy: bool,
    pub scheduler: bool,
    pub circuit_breaker: bool,
    pub rate_limiter: bool,
    pub feature_flags: bool,
    pub transit: bool,
    pub pki: bool,
    pub replication: bool,
}

/// Whether every service is switched off.
pub open spec fn all_off(c: ServiceConfig) -> bool {
    &&& !c.registry && !c.config_center && !c.lock && !c.idgen
    &&& !c.leader_election && !c.event_notification && !c.cache && !c.mq
    &&& !c.workflow && !c.policy && !c.scheduler && !c.circuit_breaker
    &&& !c.rate_limiter && !c.feature_flags && !c.transit && !c.pki && !c.replication
}

impl Default for ServiceConfig {
    /// Nothing is on unless it is switched on.
    fn default() -> (r: Self)
        ensures
            all_off(r),
            r.idgen_mode@ == "snowflake"@,
            r.idgen_node_id is None,
    {
        ServiceConfig {
            registry: false,
            config_center: false,
            lock: false,
            idgen: false,
            idgen_mode: default_idgen_mode(),
            idgen_node_id: None,
            leader_election: false,
            event_notification: false,
            cache: false,
            mq: false,
            workflow: false,
            policy: false,
            scheduler: false,
            circuit_breaker: false,
            rate_limiter: false,
            feature_flags: false,
            transit: false,
            pki: false,
            replication: false,
        }
    }
}

} // verus!
