[package]
name = "simple_lector_dni"
version = "0.1.0"
edition = "2021"
publish = false

[dependencies]
atomic-write-file = "0.2"
chrono = "0.4"
clap = { version = "4", features = ["derive"] }
csv = "1"
keyring = "3"
pcsc = "2"
serde = { version = "1", features = ["derive"] }
serde_json = "1"
thiserror = "2"
ureq = { version = "3", features = ["json", "platform-verifier"] }
url = "2"
uuid = { version = "1", features = ["v4", "serde"] }
wait-timeout = "0.2"

[dev-dependencies]
tempfile = "3"
