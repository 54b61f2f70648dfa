[package]
name = "maps_dispatcher"
version = "0.1.0"
edition = "2021"
publish = false

[dependencies]
anyhow = "*"
aws-sdk-s3 = "=1.152.0"
bytes = "*"
chrono = { version = "=0.4.45", default-features = false, features = ["std"] }
futures = "*"
reqwest = { version = "=0.13.5", default-features = false, features = ["stream"] }
rhai = { version = "=1.26.1", features = ["serde"] }
serde = { version = "*", features = ["derive"] }
serde_json = "=1.0.151"
tokio = { version = "*", features = ["rt-multi-thread", "macros", "time"] }
url = "=2.5.8"
wasmtime = "=48.0.5"
wasmtime-wasi = "=48.0.5"
