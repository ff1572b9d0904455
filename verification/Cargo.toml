[package]
name = "blindtally"
version = "0.1.0"
edition = "2021"
publish = false

[dependencies]
tfhe = { version = "=0.6.4", default-features = false, features = ["integer", "x86_64-unix"] }
serde = { version = "=1.0.229", features = ["derive"] }
bincode = { version = "=2.0.1", features = ["serde"] }
axum = "=0.8.9"
tokio = { version = "=1.54.1", features = ["rt-multi-thread", "macros", "net"] }
tracing = "=0.1.44"
reqwest = { version = "=0.12.28", default-features = false, features = ["blocking"] }
clap = { version = "=4.6.7", features = ["derive"] }
thiserror = "=2.0.21"
