[package]
name = "smb"
version = "0.1.0"
edition = "2021"
publish = false

[dependencies]
arc-swap = "1"
bytes = "1"
futures-core = "0.3"
futures-util = "0.3"
rand = "0.8"
serde = { version = "1", features = ["derive"] }
sspi = { version = "*", default-features = false }
thiserror = "2"
tokio = { version = "1", features = ["fs", "io-util", "macros", "rt", "rt-multi-thread", "sync", "time"] }
tokio-stream = "0.1"
tokio-util = { version = "0.7", features = ["rt"] }
tracing = "0.1"
zeroize = "1"
