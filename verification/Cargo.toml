[package]
name = "vandelay"
version = "0.1.0"
edition = "2021"
publish = false

[dependencies]
serde_json = { version = "=1.0.154", features = ["preserve_order"] }
serde = { version = "=1.0.229", features = ["derive"] }
indexmap = { version = "2", features = ["serde"] }
url = "=2.5.8"
quick-xml = "=0.42.0"
blake3 = "=1.8.7"
chrono = "=0.4.45"
chrono-tz = "=0.10.4"
time = { version = "=0.3.55", features = ["parsing"] }
