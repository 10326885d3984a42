use coord_agent::service::{BaseService, ServiceConfig};
use std::sync::Arc;

struct StubService;

impl BaseService for StubService {
    fn name(&self) -> &'static str {
        "stub"
    }

    fn health_check(&self) -> bool {
        true
    }
}

#[test]
fn test_base_service_trait_object_safety() {
    fn accept_trait_object(svc: &dyn BaseService) -> bool {
        svc.health_check()
    }
    fn accept_arc(svc: Arc<dyn BaseService>) -> &'static str {
        svc.name()
    }
    assert_eq!(StubService.name(), "stub");
    assert!(accept_trait_object(&StubService));
    assert_eq!(accept_arc(Arc::new(StubService)), "stub");
}

#[test]
fn test_service_config_defaults() {
    let config = ServiceConfig::default();
    assert!(!config.registry, "registry must not be on by default");
    assert!(!config.config_center, "config_center must not be on by default");
    assert!(!config.lock, "lock must not be on by default");
    assert!(!config.transit, "transit must not be on by default");
    assert!(!config.pki, "pki must not be on by default");
    assert!(!config.idgen, "idgen must not be on by default");
    assert!(!config.policy, "policy must not be on by default");
    assert!(!config.cache, "cache must not be on by default");
    assert!(!config.workflow, "workflow must not be on by default");
    assert!(!config.leader_election);
    assert!(!config.event_notification);
    assert!(!config.mq);
    assert!(!config.scheduler);
    assert!(!config.circuit_breaker);
    assert!(!config.rate_limiter);
    assert!(!config.feature_flags);
    assert!(!config.replication);
    assert_eq!(config.idgen_mode, "snowflake");
    assert_eq!(config.idgen_node_id, None);
}
