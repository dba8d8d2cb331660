[package]
name = "kotori"
version = "0.1.0"
edition = "2021"
publish = false

[dependencies]
anyhow = "1"
ashpd = { version = "=0.13.13", features = ["file_chooser", "global_shortcuts"] }
chrono = { version = "=0.4.45", features = ["serde"] }
clap = { version = "4", features = ["derive"] }
dirs = "=7.0.0"
futures-util = "0.3"
libc = "0.2"
nix = { version = "=0.31.3", features = ["fs", "hostname", "process", "signal", "term"] }
serde = { version = "1", features = ["derive"] }
serde_json = "=1.0.154"
thiserror = "2"
tokio = { version = "1", features = ["full"] }
toml = "=1.1.8"
tracing = "0.1"
tracing-subscriber = { version = "0.3", features = ["env-filter"] }
uuid = { version = "=1.29.0", features = ["v4"] }
