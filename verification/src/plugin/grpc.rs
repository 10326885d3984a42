//! The remote interfaces that plugins can offer.
use vstd::prelude::*;

verus! {

/// A remote interface of the agent.
#[derive(Debug, Clone, Copy, PartialEq, Eq, Structural)]
pub enum AgentGrpcService {
    Registry,
    ConfigCenter,
    Lock,
    IdGen,
    LeaderElection,
    EventNotification,
    Cache,
    Mq,
    Replication,
    Scheduler,
    Workflow,
    Policy,
    Transit,
    CircuitBreaker,
    RateLimiter,
    FeatureFlags,
    Pki,
    Handshake,
    PluginApi,
}

/// Name of an interface.
pub open spec fn interface_text(s: AgentGrpcService) -> Seq<char> {
    match s {
        AgentGrpcService::Registry => "registry"@,
        AgentGrpcService::ConfigCenter => "config_center"@,
        AgentGrpcService::Lock => "lock"@,
        AgentGrpcService::IdGen => "idgen"@,
        AgentGrpcService::LeaderElection => "leader_election"@,
        AgentGrpcService::EventNotification => "event_notification"@,
        AgentGrpcService::Cache => "cache"@,
        AgentGrpcService::Mq => "mq"@,
        AgentGrpcService::Replication => "replication"@,
        AgentGrpcService::Scheduler => "scheduler"@,
        AgentGrpcService::Workflow => "workflow"@,
        AgentGrpcService::Policy => "policy"@,
        AgentGrpcService::Transit => "transit"@,
        AgentGrpcService::CircuitBreaker => "circuit_breaker"@,
        AgentGrpcService::RateLimiter => "rate_limiter"@,
        AgentGrpcService::FeatureFlags => "feature_flags"@,
        AgentGrpcService::Pki => "pki"@,
        AgentGrpcService::Handshake => "handshake"@,
        AgentGrpcService::PluginApi => "plugin_api"@,
    }
}

impl AgentGrpcService {
    /// Name for logs.
    pub fn name(&self) -> (r: &'static str)
        ensures
            r@ == interface_text(*self),
    {
        match self {
            AgentGrpcService::Registry => "registry",
            AgentGrpcService::ConfigCenter => "config_center",
            AgentGrpcService::Lock => "lock",
            AgentGrpcService::IdGen => "idgen",
            AgentGrpcService::LeaderElection => "leader_election",
            AgentGrpcService::EventNotification => "event_notification",
            AgentGrpcService::Cache => "cache",
            AgentGrpcService::Mq => "mq",
            AgentGrpcService::Replication => "replication",
            AgentGrpcService::Scheduler => "scheduler",
            AgentGrpcService::Workflow => "workflow",
            AgentGrpcService::Policy => "policy",
            AgentGrpcService::Transit => "transit",
            AgentGrpcService::CircuitBreaker => "circuit_breaker",
            AgentGrpcService::RateLimiter => "rate_limiter",
            AgentGrpcService::FeatureFlags => "feature_flags",
            AgentGrpcService::Pki => "pki",
            AgentGrpcService::Handshake => "handshake",
            AgentGrpcService::PluginApi => "plugin_api",
        }
    }
}

/// Every interface is logged under a name of its own.
pub proof fn law_interfaces_have_names(s: AgentGrpcService, name: &'static str)
    requires
        call_ensures(AgentGrpcService::name, (&s,), name),
    ensures
        s is Registry ==> name@ == "registry"@,
        s is ConfigCenter ==> name@ == "config_center"@,
        s is Lock ==> name@ == "lock"@,
        s is IdGen ==> name@ == "idgen"@,
        s is LeaderElection ==> name@ == "leader_election"@,
        s is EventNotification ==> name@ == "event_notification"@,
        s is Cache ==> name@ == "cache"@,
        s is Mq ==> name@ == "mq"@,
        s is Replication ==> name@ == "replication"@,
        s is Scheduler ==> name@ == "scheduler"@,
        s is Workflow ==> name@ == "workflow"@,
        s is Policy ==> name@ == "policy"@,
        s is Transit ==> name@ == "transit"@,
        s is CircuitBreaker ==> name@ == "circuit_breaker"@,
        s is RateLimiter ==> name@ == "rate_limiter"@,
        s is FeatureFlags ==> name@ == "feature_flags"@,
        s is Pki ==> name@ == "pki"@,
        s is Handshake ==> name@ == "handshake"@,
        s is PluginApi ==> name@ == "plugin_api"@,
{
}

} // verus!
