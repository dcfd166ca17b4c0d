[package]
name = "ubergit"
version = "0.1.0"
edition = "2021"
publish = false

[dependencies]
anyhow = "1"
async-channel = "2"
async-io = "2"
async-lock = "3"
async-process = "2"
dirs = "*"
env_logger = "0.11"
futures = "0.3"
futures-lite = "2"
ignore = "0.4"
libc = "0.2"
log = "0.4"
notify = "*"
rlimit = "*"
serde = { version = "1", features = ["derive"] }
serde_json = "1"
thiserror = "2"
toml = "*"
walkdir = "2"

[dev-dependencies]
tempfile = "3"
