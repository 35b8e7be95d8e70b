[package]
name = "cmd_auth"
version = "0.1.0"
edition = "2021"
publish = false

[dependencies]
chrono = "*"
num_cpus = "*"
sys-info = "*"
sysinfo = "*"
serde = { version = "*", features = ["derive"] }
serde_json = "*"
toml = "*"
