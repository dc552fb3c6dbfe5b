[package]
name = "zenoh_recorder"
version = "0.1.0"
edition = "2021"
publish = false

[dependencies]
anyhow = "1"
async-trait = "0.1"
clap = { version = "4", features = ["derive"] }
crossbeam = "0.8"
lz4 = "1"
reqwest = { version = "0.12", default-features = false }
serde = { version = "1", features = ["derive"] }
serde_json = "1"
serde_yaml = "0.9"
tokio = { version = "1", features = ["rt-multi-thread", "sync", "time", "signal", "macros", "io-util", "fs"] }
tracing = "0.1"
tracing-subscriber = "0.3"
zstd = "0.13"

[dev-dependencies]
regex = "1"
