[package]
name = "grok_core"
version = "0.1.0"
edition = "2021"
publish = false

[dependencies]
serde = { version = "=1.0.229", features = ["derive"] }
serde_json = "=1.0.154"
chrono = "=0.4.45"
zstd = "=0.13.4"
uuid = { version = "=1.29.0", features = ["v7"] }
windows-sys = { version = "=0.59.0", features = ["Win32_Storage_FileSystem"] }
tempfile = "=3.27.0"
tokio = { version = "1", features = ["rt", "time", "macros", "sync"] }
anyhow = "1"
prost-build = "*"
tonic-prost-build = "*"
pbjson-build = "*"
