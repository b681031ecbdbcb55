[package]
name = "backup_helper"
version = "0.3.0"
edition = "2021"
publish = false

[dependencies]
blake3 = "1"
chrono = "0.4"
serde = { version = "1", features = ["derive"] }
serde_json = "1"
walkdir = "2"
filetime = "0.2"
rusqlite = { version = "0.31", features = ["bundled"] }
notify = "6"
notify-debouncer-mini = "0.4"
auto-launch = "0.5"
