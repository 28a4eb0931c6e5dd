[package]
name = "squelch"
version = "0.1.0"
edition = "2021"
publish = false

[dependencies]
serde = { version = "1", features = ["derive"] }
serde_json = "1"
str0m = "*"
tokio = { version = "1", features = ["sync", "rt-multi-thread", "macros", "time"] }
thiserror = "2"
anyhow = "1"
toml = "*"
dirs = "*"
tracing = "0.1"
tracing-subscriber = { version = "0.3", features = ["env-filter"] }
cpal = "0.15"
opus = "0.3"
global-hotkey = "*"
