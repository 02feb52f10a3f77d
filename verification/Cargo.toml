[package]
name = "agentfs"
version = "0.1.0"
edition = "2021"
publish = false

[dependencies]
serde_json = "1"
chrono = "0.4"
uuid = { version = "1", features = ["v4"] }
libc = "0.2"
ignore = "0.4"
serde = { version = "1", features = ["derive"] }
anyhow = "1"
tokio = { version = "1", features = ["full"] }
turso = "*"
ureq = { version = "2", features = ["json"] }
clap = { version = "4", features = ["derive"] }
clap_complete = "4"
dirs = "*"
parking_lot = "0.12"
thiserror = "1"
tracing = "0.1"
tracing-subscriber = { version = "0.3", features = ["env-filter"] }
async-trait = "0.1"
log = "0.4"

[dev-dependencies]
tempfile = "3"
