[package]
name = "soroban_scanner"
version = "0.1.0"
edition = "2021"
publish = false

[dependencies]
clap = { version = "4", features = ["derive"] }
libloading = "0.8"
proc-macro2 = { version = "1", features = ["span-locations"] }
quote = "1"
serde_json = "1"
serde_yaml = "0.9"
syn = { version = "2", features = ["full"] }
