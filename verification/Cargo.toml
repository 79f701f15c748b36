[package]
name = "cirrus"
version = "0.1.0"
edition = "2021"
publish = false

[dependencies]
async-stream = "0.3"
async-trait = "0.1"
clap = { version = "4", features = ["derive"] }
epics-ca-rs = "=0.19.2"
epics-pva-rs = "=0.19.2"
futures = "0.3"
mlua = { version = "=0.10.5", features = ["lua54", "vendored", "send"] }
proc-macro2 = "1"
quote = "1"
rmp-serde = "=1.3.1"
rustyline = "14"
serde = { version = "1", features = ["derive"] }
serde_json = "=1.0.154"
syn = { version = "2", features = ["full"] }
thiserror = "1"
tokio = { version = "1", features = ["full"] }
tokio-util = "0.7"
tracing = "0.1"
tracing-subscriber = { version = "0.3", features = ["env-filter"] }
url = "=2.5.8"
uuid = { version = "=1.29.0", features = ["v4"] }
zmq = "0.10"
