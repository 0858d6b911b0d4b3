[package]
name = "rust_dashboard"
version = "0.1.0"
edition = "2021"
publish = false

[dependencies]
sysinfo = "=0.33.1"
csv = "*"
dirs = "*"
env_logger = "*"
log = "*"
serde = { version = "*", features = ["derive"] }
serde_json = "*"
thiserror = "*"
toml = "*"
