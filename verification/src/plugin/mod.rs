//! The plugin host.
pub mod abi;
pub mod component_engine;
pub mod component_laws;
pub mod dispatch;
pub mod engine;
pub mod engine_laws;
pub mod engine_thread;
pub mod fingerprint;
pub mod gateway;
pub mod gateway_laws;
pub mod grpc;
pub mod guest_laws;
pub mod hooks;
pub mod identity;
pub mod identity_laws;
pub mod js_engine;
pub mod lifecycle;
pub mod loading;
pub mod loading_laws;
pub mod manifest;
pub mod native;
pub mod paths;
pub mod registry;
pub mod registry_laws;
pub mod reload;
pub mod reload_laws;
pub mod reload_results;
pub mod sdk;
pub mod server;
pub mod sign_in;
pub mod wasm_engine;
pub mod wit;
