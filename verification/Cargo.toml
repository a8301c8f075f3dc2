[package]
name = "codex_mate"
version = "0.1.0"
edition = "2021"
publish = false

[dependencies]
dirs = "*"
serde = { version = "*", features = ["derive"] }
serde_json = "*"
tauri = { version = "*", default-features = false }
toml = "*"
uuid = { version = "*", features = ["v4"] }
