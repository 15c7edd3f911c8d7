[package]
name = "dstate"
version = "0.1.0"
edition = "2021"
publish = false

[dependencies]
bincode = "=1.3.3"
serde = { version = "=1.0.229", features = ["derive"] }
tokio = { version = "=1.54.1", features = ["rt", "sync", "time", "macros"] }
tokio-util = "=0.7.20"
async-trait = "=0.1.92"
tracing = "=0.1.44"
dactor = { version = "0.2", features = ["test-support"] }
dactor-mock = "0.2"
