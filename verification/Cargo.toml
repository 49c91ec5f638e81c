[package]
name = "yaof_core"
version = "0.1.0"
edition = "2021"
publish = false

[dependencies]
serde_json = "*"
jsonschema = "*"
serde = { version = "*", features = ["derive"] }
indexmap = { version = "*", features = ["serde"] }
libloading = "*"
dirs = "*"
sysinfo = "*"
tokio = { version = "*", features = ["rt", "rt-multi-thread", "time", "sync", "macros"] }
