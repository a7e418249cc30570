[package]
name = "coerce"
version = "0.1.0"
edition = "2021"
publish = false

[dependencies]
uuid = { version = "1", features = ["v4"] }
protobuf = "2"
tokio = { version = "1", features = ["sync", "rt", "rt-multi-thread", "time", "net", "macros", "io-util"] }
tokio-util = "0.7"
chrono = "0.4"
futures = "0.3"
log = "0.4"
tracing = "0.1"
async-trait = "0.1"
lazy_static = "1"
