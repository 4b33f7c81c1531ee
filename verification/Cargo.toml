[package]
name = "dbstudiox"
version = "0.1.0"
edition = "2021"
publish = false

[dependencies]
lru = "*"
rusqlite = { version = "*", features = ["bundled", "backup", "hooks", "functions"] }
serde = { version = "1", features = ["derive"] }
serde_json = "1"
chrono = { version = "0.4", features = ["serde"] }
uuid = { version = "1", features = ["v4"] }
parking_lot = "0.12"
log = "0.4"
thiserror = "*"
tokio = { version = "1", features = ["time", "rt", "macros"] }
dirs = "*"
libloading = "*"
