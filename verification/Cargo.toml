[package]
name = "swarmotterd"
version = "0.1.0"
edition = "2021"
publish = false

[dependencies]
async-trait = "0.1"
libc = "0.2"
serde_json = "1"
tokio = { version = "1", features = ["fs", "io-util", "macros", "rt", "rt-multi-thread", "sync", "time"] }
tracing = "0.1"
