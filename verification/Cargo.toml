[package]
name = "codex_monitor_daemon"
version = "0.1.0"
edition = "2021"
publish = false

[dependencies]
uuid = { version = "*", features = ["v4"] }
serde = { version = "*", features = ["derive"] }
serde_json = "*"
tokio = { version = "*", features = ["full"] }
git2 = { version = "*", default-features = false }
ignore = "*"
