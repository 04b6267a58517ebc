[package]
name = "xkcdfs"
version = "0.1.0"
edition = "2021"
publish = false

[dependencies]
anyhow = "1"
chrono = "0.4"
clap = { version = "4", features = ["derive"] }
env_logger = "0.11"
fuser = { version = "0.15", default-features = false }
futures = "0.3"
governor = "0.8"
indicatif = "0.17"
lazy_static = "1"
libc = "0.2"
log = "0.4"
reqwest = { version = "0.12", default-features = false, features = ["json", "default-tls"] }
rusqlite = "0.32"
serde = { version = "1", features = ["derive"] }
tokio = { version = "1", features = ["rt-multi-thread"] }
