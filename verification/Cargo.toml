[package]
name = "codex_session_visibility"
version = "0.1.0"
edition = "2021"
publish = false

[dependencies]
serde_json = "=1.0.154"
chrono = "=0.4.45"
serde = { version = "=1.0.229", features = ["derive"] }
rusqlite = { version = "=0.41.1", features = ["bundled"] }
toml_edit = "0.22"
