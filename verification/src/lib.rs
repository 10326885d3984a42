//! Coordination agent: plugin host rules, request gateway, sagas and the local proxy.
pub mod core_error;
pub mod counters;
pub mod handles;
pub mod name_map;
pub mod plugin;
pub mod proxy;
pub mod saga;
pub mod saga_laws;
pub mod service;
pub mod status;
pub mod text;
