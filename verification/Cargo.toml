[package]
name = "vistula_updater"
version = "0.1.0"
edition = "2021"
publish = false

[dependencies]
which = "*"
tokio = { version = "1", features = ["process", "io-util", "rt-multi-thread", "macros", "time"] }
serde = { version = "1", features = ["derive"] }
serde_json = "1"
anyhow = "1"
