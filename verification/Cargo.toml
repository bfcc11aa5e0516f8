[package]
name = "patchbay"
version = "0.1.0"
edition = "2021"
publish = false

[dependencies]
chrono = "0.4"
flate2 = "1"
libloading = "0.8"
notify = "6"
plist = "1"
roxmltree = "0.20"
rusqlite = { version = "0.31", features = ["bundled"] }
serde = { version = "1", features = ["derive"] }
serde_json = "1"
sha2 = "0.10"
sysinfo = "0.30"
thiserror = "1"
uuid = { version = "1", features = ["v4"] }
zip = "2"
