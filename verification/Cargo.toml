[package]
name = "codex_recall"
version = "0.1.0"
edition = "2021"
publish = false

[dependencies]
anyhow = "1"
libsqlite3-sys = "0.30"
log = "0.4"
serde = { version = "1", features = ["derive"] }
serde_json = "1"
sqlx = { version = "0.8", default-features = false, features = ["migrate", "runtime-tokio", "sqlite"] }
tokio = { version = "1", features = ["fs", "io-util", "process", "rt"] }
tracing = "0.1"
