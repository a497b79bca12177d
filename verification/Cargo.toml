[package]
name = "archvnde"
version = "0.1.0"
edition = "2021"
publish = false

[dependencies]
zbus = "4"
serde = { version = "1", features = ["derive"] }
tokio = { version = "1", features = ["rt-multi-thread", "time", "sync", "macros"] }
dirs = "5"
chrono = "0.4"
