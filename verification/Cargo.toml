[package]
name = "cesm"
version = "0.1.0"
edition = "2021"
publish = false

[dependencies]
uuid = { version = "1", features = ["v4", "serde"] }
secrecy = { version = "0.10", features = ["serde"] }
rcon = { version = "0.6", default-features = false, features = ["rt-tokio"] }
tokio = { version = "1", features = ["rt", "rt-multi-thread", "macros", "net", "sync", "time"] }
tokio-util = "0.7"
tracing = "0.1"
serde = { version = "1", features = ["derive"] }
thiserror = "2"
rusqlite = { version = "*", features = ["bundled"] }
rusqlite_migration = "*"
keyring = "3"
ts-rs = "*"
