[package]
name = "workshop"
version = "0.1.0"
edition = "2021"
publish = false

[dependencies]
serde_json = "1"
serde = { version = "1", features = ["derive"] }
rusqlite = { version = "*", features = ["bundled"] }
mysql = "*"
chrono = "0.4"
uuid = { version = "1", features = ["v4"] }
dirs = "*"
thiserror = "*"
portable-pty = "*"
