[package]
name = "packet_runtime"
version = "0.1.0"
edition = "2021"
publish = false

[dependencies]
libc = "0.2"
futures-preview = "=0.3.0-alpha.19"
tokio-executor = { version = "=0.2.0-alpha.6", features = ["current-thread"] }
tokio-net = { version = "=0.2.0-alpha.6", features = ["signal"] }
tokio-timer = { version = "=0.3.0-alpha.6", features = ["async-traits"] }
