[package]
name = "coord-agent"
version = "0.1.0"
edition = "2021"
publish = false

[dependencies]
async-trait = "0.1"
hex = "0.4"
http = "1"
http-body-util = "0.1"
parking_lot = "0.12"
rand = "0.8"
rquickjs = { version = "0.14", features = ["futures", "loader"] }
serde = { version = "1", features = ["derive"] }
sha2 = "0.10"
tokio = { version = "1", features = ["rt", "rt-multi-thread", "sync", "time", "fs", "macros"] }
tokio-stream = "0.1"
tonic = { version = "0.14", default-features = false, features = ["server", "router", "codegen"] }
tower = { version = "0.5", features = ["util"] }
tracing = "0.1"
wasmtime = { version = "48", default-features = false, features = ["async", "component-model", "cranelift", "runtime", "std"] }
