[package]
name = "oqab"
version = "0.1.0"
edition = "2021"
publish = false

[dependencies]
regex = "=1.13.1"
chrono = { version = "=0.4.45", default-features = false, features = ["std"] }
fuzzy-matcher = "=0.3.7"
num_cpus = "=1.17.0"
dashmap = "6"
serde = { version = "=1.0.229", features = ["derive"] }
serde_json = "=1.0.154"
clap = { version = "=4.6.7", features = ["derive"] }
anyhow = "=1.0.104"
thiserror = "=1.0.69"
log = "=0.4.34"
env_logger = "=0.11.11"
console = "=0.15.11"
once_cell = "=1.21.4"
dirs = "=5.0.1"
