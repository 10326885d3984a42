//! The local proxy: requests of the agent's clients, answered from the cluster.
//!
//! Without a connection to a cluster some calls are answered with placeholders and others are
//! refused.
pub mod error;
pub mod kv;
pub mod laws;
pub mod storage;
pub mod streams;
