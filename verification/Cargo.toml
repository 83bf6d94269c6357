[package]
name = "mac_health"
version = "0.1.0"
edition = "2021"
publish = false

[dependencies]
dirs = "6"
nix = { version = "0.29", features = ["signal", "process"] }
serde = { version = "1", features = ["derive"] }
serde_json = "1"
sysinfo = "0.33"
