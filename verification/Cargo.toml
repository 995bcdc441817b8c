[package]
name = "estrange"
version = "0.1.1"
edition = "2021"
publish = false

[dependencies]
anyhow = "1"
base64 = "*"
chrono = "0.4"
clap = { version = "4", features = ["derive"] }
dirs = "*"
js-sys = "*"
prometheus = "*"
prometheus-reqwest-remote-write = "*"
reqwest = { version = "*", features = ["json"] }
rusqlite = { version = "*", features = ["bundled"] }
serde = { version = "1", features = ["derive"] }
serde_json = "1"
tempfile = "3"
tokio = { version = "1", features = ["macros", "rt-multi-thread"] }
toml = "*"
worker = "*"
