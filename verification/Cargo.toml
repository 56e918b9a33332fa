[package]
name = "connex"
version = "0.1.0"
edition = "2021"
publish = false

[dependencies]
reqwest = { version = "*", default-features = false }
hdrhistogram = { version = "*", default-features = false }
tokio = { version = "*", features = ["rt-multi-thread", "macros", "time", "sync"] }
sysinfo = "*"
futures = "*"
serde = { version = "*", features = ["derive"] }
